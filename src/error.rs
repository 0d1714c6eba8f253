//! The errors of this crate.
use vstd::prelude::*;

use crate::messages::WebDriverError;

verus! {

/// Error conditions returned by this crate.
#[derive(Debug)]
pub enum Error {
    FailedToLaunchDriver,
    InvalidUrl,
    ConnectionError,
    Io(String),
    /// A reply that is no JSON or not of the expected shape, with what was
    /// wrong.
    JsonDecodeError(String),
    WebDriverError(WebDriverError),
    /// Screenshot data that is no base64, with what was wrong.
    Base64DecodeError(String),
}

/// The model of an error. The detail that a decode error carries for the
/// reader is left out.
pub enum ErrorModel {
    FailedToLaunchDriver,
    InvalidUrl,
    ConnectionError,
    Io(Seq<char>),
    JsonDecode,
    /// The remote error code, its message and its stack trace.
    WebDriver(Seq<char>, Seq<char>, Option<Seq<char>>),
    Base64Decode,
}

impl DeepView for Error {
    type V = ErrorModel;

    open spec fn deep_view(&self) -> ErrorModel {
        match self {
            Error::FailedToLaunchDriver => ErrorModel::FailedToLaunchDriver,
            Error::InvalidUrl => ErrorModel::InvalidUrl,
            Error::ConnectionError => ErrorModel::ConnectionError,
            Error::Io(s) => ErrorModel::Io(s@),
            Error::JsonDecodeError(_) => ErrorModel::JsonDecode,
            Error::WebDriverError(e) => ErrorModel::WebDriver(
                e.error@,
                e.message@,
                e.stacktrace.deep_view(),
            ),
            Error::Base64DecodeError(_) => ErrorModel::Base64Decode,
        }
    }
}

/// The model of an outcome.
pub open spec fn outcome<T: DeepView>(r: Result<T, Error>) -> Result<T::V, ErrorModel> {
    match r {
        Ok(v) => Ok(v.deep_view()),
        Err(e) => Err(e.deep_view()),
    }
}

/// The text that describes an error.
pub open spec fn error_text(e: Error) -> Seq<char> {
    match e {
        Error::FailedToLaunchDriver => "Unable to start browser driver"@,
        Error::InvalidUrl => "Invalid URL"@,
        Error::ConnectionError => "Error connecting to browser"@,
        Error::Io(s) => s@,
        Error::JsonDecodeError(d) => "Received invalid response from browser: "@ + d@,
        Error::WebDriverError(w) => "Error: "@ + w.message@,
        Error::Base64DecodeError(d) => "Base64DecodeError: "@ + d@,
    }
}

impl Error {
    /// The text that describes this error.
    pub fn message(&self) -> (r: String)
        ensures
            r@ == error_text(*self),
    {
        match self {
            Error::FailedToLaunchDriver => String::from_str("Unable to start browser driver"),
            Error::InvalidUrl => String::from_str("Invalid URL"),
            Error::ConnectionError => String::from_str("Error connecting to browser"),
            Error::Io(s) => s.clone(),
            Error::JsonDecodeError(d) => {
                let mut r = String::from_str("Received invalid response from browser: ");
                r.append(d.as_str());
                r
            },
            Error::WebDriverError(e) => {
                let mut r = String::from_str("Error: ");
                r.append(e.message.as_str());
                r
            },
            Error::Base64DecodeError(d) => {
                let mut r = String::from_str("Base64DecodeError: ");
                r.append(d.as_str());
                r
            },
        }
    }
}

} // verus!
