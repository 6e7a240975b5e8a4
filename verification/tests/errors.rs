use lanoma::error::Error;

#[test]
fn error_messages_name_the_path() {
    assert_eq!(Error::ValueError.message(), "Given value is not valid.");
    assert_eq!(
        Error::InvalidProfileError("p/q".to_string()).message(),
        "Profile at 'p/q' is not valid."
    );
    assert_eq!(
        Error::ProfileAlreadyExists("p".to_string()).message(),
        "Profile at 'p' already exists."
    );
    assert_eq!(
        Error::ShelfAlreadyExists("s".to_string()).message(),
        "The shelf at path 's' already exists."
    );
    assert_eq!(
        Error::UnexportedShelfError("s".to_string()).message(),
        "The shelf at path 's' is not yet exported in the filesystem."
    );
    assert_eq!(
        Error::InvalidSubjectError("s/t".to_string()).message(),
        "The subject at path 's/t' is invalid."
    );
}

#[test]
fn error_messages_of_wrapped_errors() {
    assert_eq!(Error::ProcessError(Some(2)).message(), "The process is not successful.");
    assert_eq!(Error::ProcessError(None).message(), "The process is not successful.");
    assert_eq!(Error::IoError("gone".to_string()).message(), "gone");
    assert_eq!(Error::MissingDataError("name".to_string()).message(), "name is missing.");
    assert_eq!(Error::TomlValueError("x".to_string()).message(), "x is invalid.");
    assert_eq!(Error::TomlSerializeError("y".to_string()).message(), "y");
    assert_eq!(
        Error::HandlebarsTemplateError("t".to_string()).message(),
        "t is an invalid template."
    );
    assert_eq!(
        Error::HandlebarsTemplateFileError("f".to_string()).message(),
        "Handlebars with the instance 'f' has an error occurred."
    );
    assert_eq!(
        Error::HandlebarsRenderError("r".to_string()).message(),
        "r: Error occurred while rendering."
    );
    assert_eq!(Error::GlobParsingError("g".to_string()).message(), "g");
    assert_eq!(
        Error::Errors(vec![Error::ValueError]).message(),
        "Multiple errors occurred."
    );
}
