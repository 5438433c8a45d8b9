//! Errors that end the start of the application.

use crate::api::Error;
use vstd::prelude::*;

verus! {

/// A failure of configuration or start-up.
#[derive(Debug)]
pub enum AppError {
    /// A failure without further detail.
    Error,
    /// A failure described by a message.
    StringError(String),
    /// Text could not be formatted.
    FormatError,
    /// An I/O operation failed; the message says why.
    IoError(String),
}

impl AppError {
    /// The text that describes the error.
    pub fn message(&self) -> (r: String)
        ensures
            match self {
                AppError::StringError(m) => r@ == seq!['E', 'r', 'r', 'o', 'r', ':', ' '] + m@,
                AppError::IoError(m) => r@ == seq!['I', '/', 'O', ' ', 'e', 'r', 'r', 'o', 'r', ':', ' '] + m@,
                AppError::Error => r@ == "Generic error."@,
                AppError::FormatError => r@ == "Formatting error."@,
            },
    {
        match self {
            AppError::Error => String::from_str("Generic error."),
            AppError::StringError(m) => {
                let head = String::from_str("Error: ");
                proof {
                    reveal_strlit("Error: ");
                }
                head.concat(m.as_str())
            },
            AppError::FormatError => String::from_str("Formatting error."),
            AppError::IoError(m) => {
                let head = String::from_str("I/O error: ");
                proof {
                    reveal_strlit("I/O error: ");
                }
                head.concat(m.as_str())
            },
        }
    }
}

impl From<()> for AppError {
    fn from(_error: ()) -> (r: AppError)
        ensures
            r == AppError::Error,
    {
        AppError::Error
    }
}

impl vstd::std_specs::convert::FromSpecImpl<()> for AppError {
    open spec fn obeys_from_spec() -> bool {
        true
    }

    open spec fn from_spec(v: ()) -> AppError {
        AppError::Error
    }
}

impl From<String> for AppError {
    fn from(error: String) -> (r: AppError)
        ensures
            r == AppError::StringError(error),
    {
        AppError::StringError(error)
    }
}

impl vstd::std_specs::convert::FromSpecImpl<String> for AppError {
    open spec fn obeys_from_spec() -> bool {
        true
    }

    open spec fn from_spec(v: String) -> AppError {
        AppError::StringError(v)
    }
}

impl From<Error> for AppError {
    fn from(error: Error) -> (r: AppError)
        ensures
            r == (match error {
                Error::IoError(m) => AppError::IoError(m),
            }),
    {
        match error {
            Error::IoError(m) => AppError::IoError(m),
        }
    }
}

impl vstd::std_specs::convert::FromSpecImpl<Error> for AppError {
    open spec fn obeys_from_spec() -> bool {
        true
    }

    open spec fn from_spec(v: Error) -> AppError {
        match v {
            Error::IoError(m) => AppError::IoError(m),
        }
    }
}

} // verus!
