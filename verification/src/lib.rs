//! Key-based string localization.
//!
//! A [`Config`] names a directory of per-language JSON translation files and a
//! language. Given the text of `./{path}/{language}.json`, [`Config::translate`]
//! looks a key up in that document and substitutes `{{name}}` placeholders,
//! using caller-supplied arguments followed by a fixed table of ANSI
//! formatting codes. Every failure is returned as a typed
//! [`errors::Error`] value; printing it and exiting is left to the caller.

use vstd::prelude::*;

pub mod builtins;
pub mod document;
pub mod errors;
pub mod substitution;

use crate::builtins::{builtin_arguments, builtin_pairs};
use crate::document::{doc_lookup, lookup, parse_document, parsed_document};
use crate::errors::{Error, ErrorView};
use crate::substitution::{apply_arguments, pairs_view, substituted};

verus! {

/// The mathematical value of a [`Config`]: its two fields as sequences of
/// characters.
#[verifier::ext_equal]
pub ghost struct ConfigView {
    pub path: Seq<char>,
    pub language: Seq<char>,
}

/// Localization config: the directory containing the translation files
/// (relative to where the program runs) and the language to translate to.
///
/// Use [`Config::new`] to create config values: it validates that the path
/// exists. The language is accepted unconditionally; it is only checked
/// implicitly when the corresponding translation file is read.
#[derive(Debug, Clone)]
pub struct Config {
    /// The directory containing the translation files.
    pub path: String,
    /// The language to translate to.
    pub language: String,
}

impl View for Config {
    type V = ConfigView;

    open spec fn view(&self) -> ConfigView {
        ConfigView { path: self.path@, language: self.language@ }
    }
}

impl PartialEq for Config {
    fn eq(&self, other: &Config) -> bool {
        self.path == other.path && self.language == other.language
    }
}

impl Eq for Config {}

impl vstd::std_specs::cmp::PartialEqSpecImpl for Config {
    open spec fn obeys_eq_spec() -> bool {
        true
    }

    open spec fn eq_spec(&self, other: &Config) -> bool {
        self@ == other@
    }
}

/// The file that translations for the config's language are read from:
/// `./{path}/{language}.json`.
pub open spec fn file_path_of(cfg: ConfigView) -> Seq<char> {
    "./"@ + cfg.path + "/"@ + cfg.language + ".json"@
}

/// The error returned when the translation path does not exist: exit code 1.
pub open spec fn path_not_found_error(path: Seq<char>) -> ErrorView {
    ErrorView {
        name: "OS Error"@,
        description: "Translation path was not found\nPath: "@ + path,
        exit_code: 1,
    }
}

/// The error returned when existence of the translation path could not be
/// determined, with the underlying failure's message: exit code 2.
pub open spec fn path_check_error(path: Seq<char>, details: Seq<char>) -> ErrorView {
    ErrorView {
        name: "OS Error"@,
        description: "Could not open path\nPath: "@ + path + "\nDetails: "@ + details,
        exit_code: 2,
    }
}

/// The error returned when the translation file cannot be opened, with the
/// underlying failure's message: exit code 4.
pub open spec fn file_open_error(cfg: ConfigView, details: Seq<char>) -> ErrorView {
    ErrorView {
        name: "OS Error"@,
        description: "Could not open translation file\nFile: "@ + file_path_of(cfg)
            + "\nError: "@ + details,
        exit_code: 4,
    }
}

/// The error returned when the translation file is not well-formed JSON, with
/// the parser's message: exit code 5.
pub open spec fn parsing_error(cfg: ConfigView, details: Seq<char>) -> ErrorView {
    ErrorView {
        name: "Parsing error"@,
        description: "Translation file could not be parsed\nFile: "@ + file_path_of(cfg)
            + "\nError: "@ + details,
        exit_code: 5,
    }
}

/// The error returned when the key is absent from the document, or its value
/// is not a string: exit code 6.
pub open spec fn indexing_error(cfg: ConfigView, key: Seq<char>) -> ErrorView {
    ErrorView {
        name: "Indexing error"@,
        description: "Could not index json value\nIndex: "@ + key + "\nFile: "@ + file_path_of(
            cfg,
        ),
        exit_code: 6,
    }
}

/// What translating `key` against the given file content returns: the template
/// at `key`, with the caller's arguments and then the built-in table
/// substituted in order; or the error that names the failing step.
pub open spec fn translate_spec(
    cfg: ConfigView,
    content: Seq<char>,
    key: Seq<char>,
    args: Seq<(Seq<char>, Seq<char>)>,
) -> Result<Seq<char>, ErrorView> {
    match parsed_document(content) {
        Err(msg) => Err(parsing_error(cfg, msg)),
        Ok(entries) => match doc_lookup(entries, key) {
            Some(template) => Ok(substituted(template, args + builtin_pairs())),
            None => Err(indexing_error(cfg, key)),
        },
    }
}

/// The view of a concrete translate result, for comparing it with
/// [`translate_spec`].
pub open spec fn translate_result_view(r: Result<String, Error>) -> Result<Seq<char>, ErrorView> {
    match r {
        Ok(s) => Ok(s@),
        Err(e) => Err(e@),
    }
}

/// Law: with zero user arguments, translating a key whose template the
/// document holds yields that template with exactly the built-in table
/// substituted, in its fixed order.
pub proof fn lemma_translate_without_arguments(
    cfg: ConfigView,
    content: Seq<char>,
    key: Seq<char>,
    entries: Seq<(Seq<char>, Option<Seq<char>>)>,
    template: Seq<char>,
)
    requires
        parsed_document(content) == Ok::<Seq<(Seq<char>, Option<Seq<char>>)>, Seq<char>>(entries),
        doc_lookup(entries, key) == Some(template),
    ensures
        translate_spec(cfg, content, key, Seq::empty()) == Ok::<Seq<char>, ErrorView>(
            substituted(template, builtin_pairs()),
        ),
{
    assert(Seq::<(Seq<char>, Seq<char>)>::empty() + builtin_pairs() =~= builtin_pairs());
}

/// Law: translation is a function of the config, the file content, the key and
/// the arguments alone, so two calls against identical content return
/// identical results.
pub proof fn lemma_translate_deterministic(
    cfg: ConfigView,
    content: Seq<char>,
    key: Seq<char>,
    args: Seq<(Seq<char>, Seq<char>)>,
    first: Result<Seq<char>, ErrorView>,
    second: Result<Seq<char>, ErrorView>,
)
    requires
        first == translate_spec(cfg, content, key, args),
        second == translate_spec(cfg, content, key, args),
    ensures
        first == second,
{
}

/// Law: looking a key up that the document does not hold as a string returns
/// the indexing error, whatever the arguments, and no string at all: there is
/// no partially substituted output.
pub proof fn lemma_missing_key_is_indexing_error(
    cfg: ConfigView,
    content: Seq<char>,
    key: Seq<char>,
    args: Seq<(Seq<char>, Seq<char>)>,
    entries: Seq<(Seq<char>, Option<Seq<char>>)>,
)
    requires
        parsed_document(content) == Ok::<Seq<(Seq<char>, Option<Seq<char>>)>, Seq<char>>(entries),
        doc_lookup(entries, key) is None,
    ensures
        translate_spec(cfg, content, key, args) == Err::<Seq<char>, ErrorView>(
            indexing_error(cfg, key),
        ),
{
}

/// Relies on `std::path::Path::try_exists`. Whether the path points at
/// something that exists depends on the machine's disk, so nothing is promised
/// of the result; the error message carries the underlying failure's text.
#[verifier::external_body]
fn path_exists(path: &str) -> (r: Result<bool, String>) {
    match std::path::Path::new(path).try_exists() {
        Ok(b) => Ok(b),
        Err(e) => Err(e.to_string()),
    }
}

/// Decides what a path mutation stores or reports, given one outcome of the
/// existence check: an existing path is accepted verbatim, a missing one is
/// the exit-code-1 error, and one whose existence could not be determined is
/// the exit-code-2 error carrying the check's message.
pub fn apply_path_check(str_path: &str, checked: Result<bool, String>) -> (out: Result<
    String,
    Error,
>)
    ensures
        checked == Ok::<bool, String>(true) ==> (out matches Ok(p) && p@ == str_path@),
        checked == Ok::<bool, String>(false) ==> (out matches Err(e) && e@ == path_not_found_error(
            str_path@,
        )),
        checked matches Err(d) ==> (out matches Err(e) && e@ == path_check_error(str_path@, d@)),
{
    match checked {
        Ok(true) => Ok(str_path.to_owned()),
        Ok(false) => {
            let mut d = String::from_str("Translation path was not found\nPath: ");
            d.append(str_path);
            Err(Error::new("OS Error", d.as_str(), 1))
        },
        Err(details) => {
            let mut d = String::from_str("Could not open path\nPath: ");
            d.append(str_path);
            d.append("\nDetails: ");
            d.append(details.as_str());
            Err(Error::new("OS Error", d.as_str(), 2))
        },
    }
}

impl Config {
    /// Creates a new config with the given translation directory and language.
    ///
    /// The language is stored unconditionally; the path must name something
    /// that exists, else the path-validation error is returned.
    pub fn new(path: &str, language: &str) -> (r: Result<Config, Error>)
        ensures
            r matches Ok(c) ==> c@.path == path@ && c@.language == language@,
            r matches Err(e) ==> e@ == path_not_found_error(path@) || (exists|d: Seq<char>|
                e@ == path_check_error(path@, d)),
    {
        let mut config = Config { path: String::new(), language: String::new() };
        config.set_language(language);
        match config.set_path(path) {
            Ok(_) => Ok(config),
            Err(e) => Err(e),
        }
    }

    /// Sets the translation directory, re-running the same validation as
    /// construction. On failure the config is left unchanged and the error
    /// says whether the path was missing (exit code 1) or its existence could
    /// not be determined (exit code 2).
    pub fn set_path(&mut self, str_path: &str) -> (r: Result<(), Error>)
        ensures
            r is Ok ==> final(self)@.path == str_path@ && final(self)@.language == old(
                self,
            )@.language,
            r matches Err(e) ==> final(self)@ == old(self)@ && (e@ == path_not_found_error(
                str_path@,
            ) || (exists|d: Seq<char>| e@ == path_check_error(str_path@, d))),
    {
        let checked = path_exists(str_path);
        let ghost chk = checked;
        match apply_path_check(str_path, checked) {
            Ok(p) => {
                proof {
                    match chk {
                        Ok(b) => {
                            assert(b);
                        },
                        Err(_) => {
                            assert(false);
                        },
                    }
                    assert(p@ == str_path@);
                }
                self.path = p;
                Ok(())
            },
            Err(e) => {
                proof {
                    match chk {
                        Ok(b) => {
                            assert(!b);
                            assert(e@ == path_not_found_error(str_path@));
                        },
                        Err(d) => {
                            assert(e@ == path_check_error(str_path@, d@));
                        },
                    }
                }
                Err(e)
            },
        }
    }

    /// Sets the language. No validation happens here: a language is only
    /// checked when its translation file is read.
    pub fn set_language(&mut self, language: &str)
        ensures
            final(self)@.language == language@,
            final(self)@.path == old(self)@.path,
    {
        self.language = language.to_owned();
    }

    /// The path of the file that translations are read from:
    /// `./{path}/{language}.json`. A caller reads that file and hands its text
    /// to [`Config::translate`].
    pub fn file_path(&self) -> (r: String)
        ensures
            r@ == file_path_of(self@),
    {
        let mut p = String::from_str("./");
        p.append(self.path.as_str());
        p.append("/");
        p.append(self.language.as_str());
        p.append(".json");
        p
    }

    /// The error for a translation file that could not be opened, with the
    /// underlying failure's message: exit code 4. A caller that fails to read
    /// [`Config::file_path`] reports it with this error.
    pub fn file_error(&self, details: &str) -> (r: Error)
        ensures
            r@ == file_open_error(self@, details@),
    {
        let mut d = String::from_str("Could not open translation file\nFile: ");
        let fp = self.file_path();
        d.append(fp.as_str());
        d.append("\nError: ");
        d.append(details);
        Error::new("OS Error", d.as_str(), 4)
    }

    /// Translates `key` against the given translation file text: parses the
    /// text as JSON, looks `key` up in the top-level object, and substitutes
    /// the caller's arguments and then the built-in formatting table into the
    /// template found there. Every failure is returned as a typed error; a
    /// partially substituted string is never returned.
    pub fn translate(&self, content: &str, key: &str, arguments: Vec<(&str, &str)>) -> (r: Result<
        String,
        Error,
    >)
        ensures
            translate_result_view(r) == translate_spec(
                self@,
                content@,
                key@,
                pairs_view(arguments@),
            ),
    {
        let entries = match parse_document(content) {
            Ok(v) => v,
            Err(msg) => {
                let mut d = String::from_str("Translation file could not be parsed\nFile: ");
                let fp = self.file_path();
                d.append(fp.as_str());
                d.append("\nError: ");
                d.append(msg.as_str());
                return Err(Error::new("Parsing error", d.as_str(), 5));
            },
        };
        let template = match lookup(&entries, key) {
            Some(t) => t,
            None => {
                let mut d = String::from_str("Could not index json value\nIndex: ");
                d.append(key);
                d.append("\nFile: ");
                let fp = self.file_path();
                d.append(fp.as_str());
                return Err(Error::new("Indexing error", d.as_str(), 6));
            },
        };
        let ghost user = pairs_view(arguments@);
        let mut all = arguments;
        let mut extra = builtin_arguments();
        all.append(&mut extra);
        proof {
            assert(pairs_view(all@) =~= user + builtin_pairs());
        }
        let result = apply_arguments(template, &all);
        Ok(result)
    }

    /// Translates `key` with the given arguments, as [`Config::translate`]
    /// does. This short name mirrors the primary entry point of the library.
    pub fn t(&self, content: &str, key: &str, arguments: Vec<(&str, &str)>) -> (r: Result<
        String,
        Error,
    >)
        ensures
            translate_result_view(r) == translate_spec(
                self@,
                content@,
                key@,
                pairs_view(arguments@),
            ),
    {
        self.translate(content, key, arguments)
    }
}

} // verus!
