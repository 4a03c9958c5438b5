//! The failures of the library: a closed set of kinds, each with a message.

use vstd::prelude::*;

verus! {

/// What went wrong, with the details in words.
#[derive(Debug, Clone, PartialEq, Eq)]
pub enum MdzError {
    /// The storage could not be read, or text was not UTF-8.
    Io(String),
    /// The container is not an archive that can be read.
    Zip(String),
    /// A JSON value could not be read or written.
    Json(String),
    /// The container does not have the shape of an MDZ document.
    InvalidFormat(String),
    /// A required entry is absent; the message is its path.
    MissingFile(String),
    /// A resource that the document refers to is absent.
    ResourceNotFound(String),
    /// A structural rule is broken.
    Validation(String),
    /// The document could not be parsed.
    Parse(String),
    /// The document could not be rendered.
    Render(String),
}

/// The kinds of failure, without their messages.
#[derive(Debug, Clone, Copy, PartialEq, Eq, Structural)]
pub enum ErrorKind {
    Io,
    Zip,
    Json,
    InvalidFormat,
    MissingFile,
    ResourceNotFound,
    Validation,
    Parse,
    Render,
}

impl MdzError {
    /// The kind of the error.
    pub open spec fn kind_of(self) -> ErrorKind {
        match self {
            MdzError::Io(_) => ErrorKind::Io,
            MdzError::Zip(_) => ErrorKind::Zip,
            MdzError::Json(_) => ErrorKind::Json,
            MdzError::InvalidFormat(_) => ErrorKind::InvalidFormat,
            MdzError::MissingFile(_) => ErrorKind::MissingFile,
            MdzError::ResourceNotFound(_) => ErrorKind::ResourceNotFound,
            MdzError::Validation(_) => ErrorKind::Validation,
            MdzError::Parse(_) => ErrorKind::Parse,
            MdzError::Render(_) => ErrorKind::Render,
        }
    }

    /// The kind of the error, for callers that branch on it.
    pub fn kind(&self) -> (k: ErrorKind)
        ensures
            k == self.kind_of(),
    {
        match self {
            MdzError::Io(_) => ErrorKind::Io,
            MdzError::Zip(_) => ErrorKind::Zip,
            MdzError::Json(_) => ErrorKind::Json,
            MdzError::InvalidFormat(_) => ErrorKind::InvalidFormat,
            MdzError::MissingFile(_) => ErrorKind::MissingFile,
            MdzError::ResourceNotFound(_) => ErrorKind::ResourceNotFound,
            MdzError::Validation(_) => ErrorKind::Validation,
            MdzError::Parse(_) => ErrorKind::Parse,
            MdzError::Render(_) => ErrorKind::Render,
        }
    }

    /// The details that the error carries.
    pub open spec fn detail(self) -> Seq<char> {
        match self {
            MdzError::Io(m) => m@,
            MdzError::Zip(m) => m@,
            MdzError::Json(m) => m@,
            MdzError::InvalidFormat(m) => m@,
            MdzError::MissingFile(m) => m@,
            MdzError::ResourceNotFound(m) => m@,
            MdzError::Validation(m) => m@,
            MdzError::Parse(m) => m@,
            MdzError::Render(m) => m@,
        }
    }

    /// The words that introduce an error of this kind.
    pub open spec fn heading(self) -> Seq<char> {
        match self {
            MdzError::Io(_) => "IO error: "@,
            MdzError::Zip(_) => "ZIP error: "@,
            MdzError::Json(_) => "JSON error: "@,
            MdzError::InvalidFormat(_) => "Invalid MDZ format: "@,
            MdzError::MissingFile(_) => "Missing required file: "@,
            MdzError::ResourceNotFound(_) => "Resource not found: "@,
            MdzError::Validation(_) => "Validation error: "@,
            MdzError::Parse(_) => "Parsing error: "@,
            MdzError::Render(_) => "Rendering error: "@,
        }
    }

    /// The error as one line of text: the kind's heading, then the details.
    pub open spec fn text(self) -> Seq<char> {
        self.heading() + self.detail()
    }

    /// The error as one line of text.
    pub fn message(&self) -> (s: String)
        ensures
            s@ == self.text(),
    {
        match self {
            MdzError::Io(m) => String::from_str("IO error: ").concat(m.as_str()),
            MdzError::Zip(m) => String::from_str("ZIP error: ").concat(m.as_str()),
            MdzError::Json(m) => String::from_str("JSON error: ").concat(m.as_str()),
            MdzError::InvalidFormat(m) => String::from_str("Invalid MDZ format: ").concat(
                m.as_str(),
            ),
            MdzError::MissingFile(m) => String::from_str("Missing required file: ").concat(
                m.as_str(),
            ),
            MdzError::ResourceNotFound(m) => String::from_str("Resource not found: ").concat(
                m.as_str(),
            ),
            MdzError::Validation(m) => String::from_str("Validation error: ").concat(m.as_str()),
            MdzError::Parse(m) => String::from_str("Parsing error: ").concat(m.as_str()),
            MdzError::Render(m) => String::from_str("Rendering error: ").concat(m.as_str()),
        }
    }
}

} // verus!
