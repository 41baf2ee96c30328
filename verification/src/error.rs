//! The library's error type.

use vstd::prelude::*;

verus! {

/// Why an operation failed. Errors that arise outside the library (file and
/// JSON handling of the application) carry the text of their cause.
#[derive(Debug)]
pub enum HermesError {
    /// The input was rejected; the text says why.
    Validation(String),
    /// The remote host reported a failure; the text describes it.
    Remote(String),
    /// Local app data could not be read or written.
    Storage(String),
    /// App data could not be encoded or decoded.
    Json(String),
    /// `ssh` could not be started.
    Launch(String),
    /// Remote output was not UTF-8.
    InvalidUtf8,
    /// Remote output was not the JSON that was expected.
    InvalidJson(String),
}

pub const STORAGE_PREFIX: &'static str = "Unable to read or write local app data: ";
pub const JSON_PREFIX: &'static str = "Unable to encode or decode app data: ";
pub const LAUNCH_PREFIX: &'static str = "Unable to start ssh: ";
pub const INVALID_UTF8_MESSAGE: &'static str = "Remote output was not valid UTF-8.";
pub const INVALID_JSON_PREFIX: &'static str = "Remote output was not valid JSON: ";

impl HermesError {
    /// The text shown for this error.
    pub open spec fn spec_message(&self) -> Seq<char> {
        match self {
            HermesError::Validation(m) => m@,
            HermesError::Remote(m) => m@,
            HermesError::Storage(m) => STORAGE_PREFIX@ + m@,
            HermesError::Json(m) => JSON_PREFIX@ + m@,
            HermesError::Launch(m) => LAUNCH_PREFIX@ + m@,
            HermesError::InvalidUtf8 => INVALID_UTF8_MESSAGE@,
            HermesError::InvalidJson(m) => INVALID_JSON_PREFIX@ + m@,
        }
    }

    /// The text shown for this error.
    pub fn message(&self) -> (res: String)
        ensures
            res@ == self.spec_message(),
    {
        match self {
            HermesError::Validation(m) => m.clone(),
            HermesError::Remote(m) => m.clone(),
            HermesError::Storage(m) => prefixed(STORAGE_PREFIX, m),
            HermesError::Json(m) => prefixed(JSON_PREFIX, m),
            HermesError::Launch(m) => prefixed(LAUNCH_PREFIX, m),
            HermesError::InvalidUtf8 => INVALID_UTF8_MESSAGE.to_owned(),
            HermesError::InvalidJson(m) => prefixed(INVALID_JSON_PREFIX, m),
        }
    }
}

fn prefixed(prefix: &str, m: &String) -> (res: String)
    ensures
        res@ == prefix@ + m@,
{
    let mut v = crate::text::chars_of(prefix);
    crate::text::append_str(&mut v, m.as_str());
    crate::text::string_of(&v)
}

} // verus!
