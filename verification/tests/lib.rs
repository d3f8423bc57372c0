use localizer_rs::apply_path_check;
use localizer_rs::Config;

// A directory that exists while the tests run: the package's own source
// directory, relative to where `cargo test` starts.
const EXISTING_DIR: &str = "src";

// A small English translation document: one key, "error", holding a template
// with built-in and user placeholders.
const EN_JSON: &str = "{\"error\": \"{{color.red}}{{bold}}Error:{{end}} {{details}}\"}";

#[test]
fn test_config() {
    let config: Config = Config::new(EXISTING_DIR, "en").unwrap();

    assert_eq!(
        config,
        Config {
            path: "src".to_owned(),
            language: "en".to_owned()
        }
    );
}

#[test]
fn test_set_path() {
    let mut config: Config = Config::new(EXISTING_DIR, "en").unwrap();
    config.set_path("tests").unwrap();

    assert_eq!(
        config,
        Config {
            path: "tests".to_owned(),
            language: "en".to_owned()
        }
    );
}

#[test]
fn test_set_path_missing_leaves_config() {
    let mut config: Config = Config::new(EXISTING_DIR, "en").unwrap();
    let error = config.set_path("no_such_directory_anywhere").unwrap_err();

    assert_eq!(error.name, "OS Error");
    assert_eq!(error.exit_code, 1);
    assert!(error.description.contains("no_such_directory_anywhere"));
    assert_eq!(config.path, "src");
    assert_eq!(config.language, "en");
}

#[test]
fn test_set_language() {
    let mut config: Config = Config::new(EXISTING_DIR, "en").unwrap();
    config.set_language("not_en");

    assert_eq!(
        config,
        Config {
            path: "src".to_owned(),
            language: "not_en".to_owned()
        }
    );
}

#[test]
fn test_apply_path_check_existing() {
    let stored = apply_path_check("some/dir", Ok(true)).unwrap();

    assert_eq!(stored, "some/dir");
}

#[test]
fn test_apply_path_check_missing() {
    let error = apply_path_check("some/dir", Ok(false)).unwrap_err();

    assert_eq!(error.name, "OS Error");
    assert_eq!(error.exit_code, 1);
    assert!(error.description.contains("Translation path was not found"));
    assert!(error.description.contains("some/dir"));
}

#[test]
fn test_apply_path_check_undetermined() {
    let error = apply_path_check("some/dir", Err("permission denied".to_owned())).unwrap_err();

    assert_eq!(error.name, "OS Error");
    assert_eq!(error.exit_code, 2);
    assert!(error.description.contains("permission denied"));
    assert!(error.description.contains("some/dir"));
}

#[test]
fn test_nonexistent_path_is_os_error() {
    let error = Config::new("no_such_directory_anywhere", "en").unwrap_err();

    assert_eq!(error.name, "OS Error");
    assert_eq!(error.exit_code, 1);
    assert!(error.description.contains("no_such_directory_anywhere"));
}

#[test]
fn test_translate() {
    let config: Config = Config::new(EXISTING_DIR, "en").unwrap();
    let translation: String = config
        .translate(EN_JSON, "error", vec![("details", "Something went wrong")])
        .unwrap();

    assert_eq!(
        translation.as_str(),
        "\x1b[31m\x1b[1mError:\x1b[0m Something went wrong"
    );
}

#[test]
fn test_translate_t() {
    let config: Config = Config::new(EXISTING_DIR, "en").unwrap();
    let translation: String = config
        .t(EN_JSON, "error", vec![("details", "Something went wrong")])
        .unwrap();

    assert_eq!(
        translation.as_str(),
        "\x1b[31m\x1b[1mError:\x1b[0m Something went wrong"
    );
}

#[test]
fn test_translate_idempotent() {
    let config: Config = Config::new(EXISTING_DIR, "en").unwrap();
    let first = config.translate(EN_JSON, "error", vec![("details", "again")]);
    let second = config.translate(EN_JSON, "error", vec![("details", "again")]);

    assert_eq!(first.unwrap(), second.unwrap());
}

#[test]
fn test_builtins_substituted_unmatched_kept() {
    let config: Config = Config::new(EXISTING_DIR, "en").unwrap();
    let content = "{\"all\": \"{{bold}}x{{end}}{{nope}}\"}";
    let translation = config.translate(content, "all", vec![]).unwrap();

    assert_eq!(translation.as_str(), "\x1b[1mx\x1b[0m{{nope}}");
}

#[test]
fn test_every_builtin_color() {
    let config: Config = Config::new(EXISTING_DIR, "en").unwrap();
    let content = "{\"c\": \"{{color.red}}{{back.bright_white}}{{overline}}\"}";
    let translation = config.translate(content, "c", vec![]).unwrap();

    assert_eq!(translation.as_str(), "\x1b[31m\x1b[107m\x1b[53m");
}

#[test]
fn test_missing_key_is_indexing_error() {
    let config: Config = Config::new(EXISTING_DIR, "en").unwrap();
    let error = config.translate(EN_JSON, "missing", vec![]).unwrap_err();

    assert_eq!(error.name, "Indexing error");
    assert_eq!(error.exit_code, 6);
    assert!(error.description.contains("missing"));
    assert!(error.description.contains("./src/en.json"));
}

#[test]
fn test_non_string_value_is_indexing_error() {
    let config: Config = Config::new(EXISTING_DIR, "en").unwrap();
    let content = "{\"error\": 5}";
    let error = config.translate(content, "error", vec![]).unwrap_err();

    assert_eq!(error.name, "Indexing error");
    assert_eq!(error.exit_code, 6);
}

#[test]
fn test_non_object_document_is_indexing_error() {
    let config: Config = Config::new(EXISTING_DIR, "en").unwrap();
    let error = config.translate("[1, 2, 3]", "error", vec![]).unwrap_err();

    assert_eq!(error.name, "Indexing error");
    assert_eq!(error.exit_code, 6);
}

#[test]
fn test_malformed_json_is_parsing_error() {
    let config: Config = Config::new(EXISTING_DIR, "en").unwrap();
    let error = config.translate("{not json", "error", vec![]).unwrap_err();

    assert_eq!(error.name, "Parsing error");
    assert_eq!(error.exit_code, 5);
    assert!(error.description.contains("./src/en.json"));
}

#[test]
fn test_duplicate_placeholders_all_replaced() {
    let config: Config = Config::new(EXISTING_DIR, "en").unwrap();
    let content = "{\"twice\": \"{{name}} and {{name}}\"}";
    let translation = config
        .translate(content, "twice", vec![("name", "X")])
        .unwrap();

    assert_eq!(translation.as_str(), "X and X");
}

#[test]
fn test_sequential_resubstitution() {
    // A user value that itself holds a built-in placeholder is substituted
    // first, and the built-in pass then rewrites the token it brought in:
    // substitution is sequential, not one atomic pass over the original.
    let config: Config = Config::new(EXISTING_DIR, "en").unwrap();
    let translation = config
        .translate(EN_JSON, "error", vec![("details", "see {{bold}}here{{end}}")])
        .unwrap();

    assert_eq!(
        translation.as_str(),
        "\x1b[31m\x1b[1mError:\x1b[0m see \x1b[1mhere\x1b[0m"
    );
}

#[test]
fn test_user_argument_runs_before_builtin() {
    // The user pair is applied first, so a user argument sharing a built-in's
    // name consumes the placeholder before the built-in pass sees it.
    let config: Config = Config::new(EXISTING_DIR, "en").unwrap();
    let content = "{\"k\": \"{{end}}\"}";
    let translation = config.translate(content, "k", vec![("end", "E")]).unwrap();

    assert_eq!(translation.as_str(), "E");
}

#[test]
fn test_empty_template() {
    let config: Config = Config::new(EXISTING_DIR, "en").unwrap();
    let content = "{\"empty\": \"\"}";
    let translation = config.translate(content, "empty", vec![("a", "b")]).unwrap();

    assert_eq!(translation.as_str(), "");
}

#[test]
fn test_duplicate_keys_last_wins() {
    // JSON text writing the same key twice keeps the later value, as the
    // parser's document does.
    let config: Config = Config::new(EXISTING_DIR, "en").unwrap();
    let content = "{\"k\": \"first\", \"k\": \"second\"}";
    let translation = config.translate(content, "k", vec![]).unwrap();

    assert_eq!(translation.as_str(), "second");
}

#[test]
fn test_empty_key() {
    let config: Config = Config::new(EXISTING_DIR, "en").unwrap();
    let content = "{\"\": \"anonymous\"}";
    let translation = config.translate(content, "", vec![]).unwrap();

    assert_eq!(translation.as_str(), "anonymous");
}

#[test]
fn test_file_path() {
    let config: Config = Config::new(EXISTING_DIR, "en").unwrap();

    assert_eq!(config.file_path(), "./src/en.json");
}

#[test]
fn test_file_error() {
    let config: Config = Config::new(EXISTING_DIR, "en").unwrap();
    let error = config.file_error("permission denied");

    assert_eq!(error.name, "OS Error");
    assert_eq!(error.exit_code, 4);
    assert!(error.description.contains("./src/en.json"));
    assert!(error.description.contains("permission denied"));
}
