//! The error type shared by all services.
use vstd::prelude::*;

verus! {

/// Common error type for Aevum operations; each variant carries a description.
#[derive(Debug)]
pub enum Error {
    Config(String),
    Validation(String),
    Io(String),
    Database(String),
    StreamProcessing(String),
    Serialization(String),
    NotFound(String),
    Authentication(String),
    Authorization(String),
    ExternalService(String),
    Unexpected(String),
}

/// The mathematical view of an error: its kind and its description.
pub enum ErrorKind {
    Config,
    Validation,
    Io,
    Database,
    StreamProcessing,
    Serialization,
    NotFound,
    Authentication,
    Authorization,
    ExternalService,
    Unexpected,
}

impl Error {
    /// The kind of this error.
    pub open spec fn kind(&self) -> ErrorKind {
        match self {
            Error::Config(_) => ErrorKind::Config,
            Error::Validation(_) => ErrorKind::Validation,
            Error::Io(_) => ErrorKind::Io,
            Error::Database(_) => ErrorKind::Database,
            Error::StreamProcessing(_) => ErrorKind::StreamProcessing,
            Error::Serialization(_) => ErrorKind::Serialization,
            Error::NotFound(_) => ErrorKind::NotFound,
            Error::Authentication(_) => ErrorKind::Authentication,
            Error::Authorization(_) => ErrorKind::Authorization,
            Error::ExternalService(_) => ErrorKind::ExternalService,
            Error::Unexpected(_) => ErrorKind::Unexpected,
        }
    }

    /// The description this error carries.
    pub open spec fn detail(&self) -> Seq<char> {
        match self {
            Error::Config(s) => s@,
            Error::Validation(s) => s@,
            Error::Io(s) => s@,
            Error::Database(s) => s@,
            Error::StreamProcessing(s) => s@,
            Error::Serialization(s) => s@,
            Error::NotFound(s) => s@,
            Error::Authentication(s) => s@,
            Error::Authorization(s) => s@,
            Error::ExternalService(s) => s@,
            Error::Unexpected(s) => s@,
        }
    }

    /// The prefix with which this kind of error is displayed.
    pub open spec fn prefix(&self) -> Seq<char> {
        match self {
            Error::Config(_) => "Configuration error: "@,
            Error::Validation(_) => "Validation error: "@,
            Error::Io(_) => "IO error: "@,
            Error::Database(_) => "Database error: "@,
            Error::StreamProcessing(_) => "Stream processing error: "@,
            Error::Serialization(_) => "Serialization error: "@,
            Error::NotFound(_) => "Not found: "@,
            Error::Authentication(_) => "Authentication error: "@,
            Error::Authorization(_) => "Authorization error: "@,
            Error::ExternalService(_) => "External service error: "@,
            Error::Unexpected(_) => "Unexpected error: "@,
        }
    }

    /// The text with which this error is displayed: the prefix of its kind,
    /// then its description.
    pub fn message(&self) -> (r: String)
        ensures
            r@ == self.prefix() + self.detail(),
    {
        let (prefix, detail): (&str, &String) = match self {
            Error::Config(s) => ("Configuration error: ", s),
            Error::Validation(s) => ("Validation error: ", s),
            Error::Io(s) => ("IO error: ", s),
            Error::Database(s) => ("Database error: ", s),
            Error::StreamProcessing(s) => ("Stream processing error: ", s),
            Error::Serialization(s) => ("Serialization error: ", s),
            Error::NotFound(s) => ("Not found: ", s),
            Error::Authentication(s) => ("Authentication error: ", s),
            Error::Authorization(s) => ("Authorization error: ", s),
            Error::ExternalService(s) => ("External service error: ", s),
            Error::Unexpected(s) => ("Unexpected error: ", s),
        };
        let mut out = prefix.to_owned();
        out.append(detail.as_str());
        out
    }
}

} // verus!
