//! The uniform error value used by every fallible operation of this crate.

use vstd::prelude::*;

verus! {

/// The mathematical value of an [`Error`]: its three fields, as sequences of
/// characters and an unbounded integer.
pub ghost struct ErrorView {
    pub name: Seq<char>,
    pub description: Seq<char>,
    pub exit_code: int,
}

/// An error value carrying a short category name, a human-readable
/// description, and a small positive exit code that distinguishes the failure
/// category for automated tooling.
///
/// Construction is pure; nothing is printed and the process is never ended
/// here. A caller that wants to print and exit formats the error with
/// [`Error::message`] and acts on [`Error::exit_code`] itself.
#[derive(Debug, Clone)]
pub struct Error {
    /// Short category label, such as `"OS Error"` or `"Parsing error"`.
    pub name: String,
    /// Human-readable explanation of the failure.
    pub description: String,
    /// Exit code distinguishing the failure category.
    pub exit_code: i32,
}

impl View for Error {
    type V = ErrorView;

    open spec fn view(&self) -> ErrorView {
        ErrorView {
            name: self.name@,
            description: self.description@,
            exit_code: self.exit_code as int,
        }
    }
}

impl PartialEq for Error {
    fn eq(&self, other: &Error) -> bool {
        self.name == other.name && self.description == other.description
            && self.exit_code == other.exit_code
    }
}

impl Eq for Error {}

impl vstd::std_specs::cmp::PartialEqSpecImpl for Error {
    open spec fn obeys_eq_spec() -> bool {
        true
    }

    open spec fn eq_spec(&self, other: &Error) -> bool {
        self@ == other@
    }
}

/// The formatted one-line message of an error: the name, intensified and
/// colored red, then a colon and the description.
pub open spec fn message_of(e: ErrorView) -> Seq<char> {
    "\x1b[31;1m"@ + e.name + "\x1b[0m: "@ + e.description
}

impl Error {
    /// Creates a new error value from its three fields.
    pub fn new(name: &str, description: &str, exit_code: i32) -> (r: Error)
        ensures
            r@.name == name@,
            r@.description == description@,
            r@.exit_code == exit_code as int,
    {
        Error { name: name.to_owned(), description: description.to_owned(), exit_code }
    }

    /// Formats the error as the one line that a caller would print: the name,
    /// intensified and colored, then the description.
    pub fn message(&self) -> (r: String)
        ensures
            r@ == message_of(self@),
    {
        let mut out = String::from_str("\x1b[31;1m");
        out.append(self.name.as_str());
        out.append("\x1b[0m: ");
        out.append(self.description.as_str());
        out
    }
}

} // verus!
