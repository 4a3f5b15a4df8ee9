//! Error taxonomy shared by every component of the library.

use vstd::prelude::*;

verus! {

/// Classified failure of a library operation.
///
/// `Credential` covers account/secret lookup failures, `S3` remote-storage
/// failures, `Storage` local persistence and filesystem failures, `NotFound`
/// a missing record, and `InvalidInput` a request the configuration rules
/// reject (including an attempt to start a sync that is already running).
#[derive(Debug)]
pub enum AppError {
    Credential(String),
    S3(String),
    Storage(String),
    NotFound(String),
    InvalidInput(String),
}

impl AppError {
    /// Human-readable rendering, `"<kind>: <detail>"`.
    pub fn message(&self) -> (r: String)
        ensures
            r@ == self.message_view(),
    {
        match self {
            AppError::Credential(s) => {
                let mut m = String::from_str("Credential error: ");
                m.append(s.as_str());
                m
            },
            AppError::S3(s) => {
                let mut m = String::from_str("S3 error: ");
                m.append(s.as_str());
                m
            },
            AppError::Storage(s) => {
                let mut m = String::from_str("Storage error: ");
                m.append(s.as_str());
                m
            },
            AppError::NotFound(s) => {
                let mut m = String::from_str("Not found: ");
                m.append(s.as_str());
                m
            },
            AppError::InvalidInput(s) => {
                let mut m = String::from_str("Invalid input: ");
                m.append(s.as_str());
                m
            },
        }
    }

    /// What `message` returns, as a sequence of characters.
    pub open spec fn message_view(&self) -> Seq<char> {
        match self {
            AppError::Credential(s) => "Credential error: "@ + s@,
            AppError::S3(s) => "S3 error: "@ + s@,
            AppError::Storage(s) => "Storage error: "@ + s@,
            AppError::NotFound(s) => "Not found: "@ + s@,
            AppError::InvalidInput(s) => "Invalid input: "@ + s@,
        }
    }
}

} // verus!
