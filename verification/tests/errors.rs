use localizer_rs::errors::Error;

#[test]
fn test_error() {
    let error: Error = Error::new("name", "description", 1);

    assert_eq!(
        error,
        Error {
            name: "name".to_owned(),
            description: "description".to_owned(),
            exit_code: 1
        }
    );
}

#[test]
fn test_error_message() {
    let error: Error = Error::new("name", "description", 1);

    assert_eq!(error.message(), "\x1b[31;1mname\x1b[0m: description");
}

#[test]
fn test_error_clone_equal() {
    let error: Error = Error::new("Parsing error", "bad file", 5);
    let copy: Error = error.clone();

    assert_eq!(error, copy);
    assert_eq!(copy.exit_code, 5);
}
