//! The errors of the library and the messages they are shown with.
use vstd::prelude::*;
use vstd::string::*;

verus! {

/// An enum for errors possible to happen in the library.
///
/// Paths are held as their text; errors raised by the filesystem, the TOML
/// and Handlebars libraries or the glob walker are held as their message.
#[derive(Debug)]
pub enum Error {
    /// Error when the value is invalid in a function.
    ValueError,
    /// Error when the profile is not valid or does not exist.
    InvalidProfileError(String),
    /// Given when the operation requires the profile to be nonexistent.
    ProfileAlreadyExists(String),
    /// Given when the shelf operation requires the shelf to be nonexistent in the filesystem.
    ShelfAlreadyExists(String),
    /// Used when the shelf is not yet exported while attempting filesystem operations.
    UnexportedShelfError(String),
    /// Used when the associated subject is not valid.
    InvalidSubjectError(String),
    /// Input/output errors, by their message.
    IoError(String),
    /// A shell process exited unsuccessfully, with its exit code if it had one.
    ProcessError(Option<i32>),
    /// Error when a part of the profile data is missing.
    MissingDataError(String),
    /// TOML parsing errors, by their message.
    TomlValueError(String),
    /// TOML serialization errors, by their message.
    TomlSerializeError(String),
    /// Template parsing errors, by their message.
    HandlebarsTemplateError(String),
    /// Template file errors, by their message.
    HandlebarsTemplateFileError(String),
    /// Rendering errors, by their message.
    HandlebarsRenderError(String),
    /// Unrecognized glob patterns, by their message.
    GlobParsingError(String),
    /// Several errors gathered from one operation.
    Errors(Vec<Error>),
}

/// The message an error is shown with.
pub open spec fn message_spec(e: Error) -> Seq<char> {
    match e {
        Error::ValueError => "Given value is not valid."@,
        Error::InvalidProfileError(p) => "Profile at '"@ + p@ + "' is not valid."@,
        Error::ProfileAlreadyExists(p) => "Profile at '"@ + p@ + "' already exists."@,
        Error::ShelfAlreadyExists(p) => "The shelf at path '"@ + p@ + "' already exists."@,
        Error::UnexportedShelfError(p) => "The shelf at path '"@ + p@
            + "' is not yet exported in the filesystem."@,
        Error::InvalidSubjectError(p) => "The subject at path '"@ + p@ + "' is invalid."@,
        Error::ProcessError(_) => "The process is not successful."@,
        Error::IoError(m) => m@,
        Error::MissingDataError(p) => p@ + " is missing."@,
        Error::TomlValueError(m) => m@ + " is invalid."@,
        Error::TomlSerializeError(m) => m@,
        Error::HandlebarsTemplateError(m) => m@ + " is an invalid template."@,
        Error::HandlebarsTemplateFileError(m) => "Handlebars with the instance '"@ + m@
            + "' has an error occurred."@,
        Error::HandlebarsRenderError(m) => m@ + ": Error occurred while rendering."@,
        Error::GlobParsingError(m) => m@,
        Error::Errors(_) => "Multiple errors occurred."@,
    }
}

fn framed(prefix: &str, middle: &String, suffix: &str) -> (r: String)
    ensures
        r@ == prefix@ + middle@ + suffix@,
{
    let mut r = String::from_str(prefix);
    r.append(middle.as_str());
    r.append(suffix);
    r
}

impl Error {
    /// The message the error is shown with.
    pub fn message(&self) -> (r: String)
        ensures
            r@ == message_spec(*self),
    {
        proof {
            reveal_strlit("");
        }
        match self {
            Error::ValueError => String::from_str("Given value is not valid."),
            Error::InvalidProfileError(p) => framed("Profile at '", p, "' is not valid."),
            Error::ProfileAlreadyExists(p) => framed("Profile at '", p, "' already exists."),
            Error::ShelfAlreadyExists(p) => framed("The shelf at path '", p, "' already exists."),
            Error::UnexportedShelfError(p) => framed(
                "The shelf at path '",
                p,
                "' is not yet exported in the filesystem.",
            ),
            Error::InvalidSubjectError(p) => framed("The subject at path '", p, "' is invalid."),
            Error::ProcessError(_) => String::from_str("The process is not successful."),
            Error::IoError(m) => m.clone(),
            Error::MissingDataError(p) => framed("", p, " is missing."),
            Error::TomlValueError(m) => framed("", m, " is invalid."),
            Error::TomlSerializeError(m) => m.clone(),
            Error::HandlebarsTemplateError(m) => framed("", m, " is an invalid template."),
            Error::HandlebarsTemplateFileError(m) => framed(
                "Handlebars with the instance '",
                m,
                "' has an error occurred.",
            ),
            Error::HandlebarsRenderError(m) => framed("", m, ": Error occurred while rendering."),
            Error::GlobParsingError(m) => m.clone(),
            Error::Errors(_) => String::from_str("Multiple errors occurred."),
        }
    }
}

} // verus!
