//! Error taxonomy of the client.
//!
//! Every failure surfaces to the immediate caller as one of these typed
//! values; nothing is retried behind the caller's back.

use vstd::prelude::*;

verus! {

/// Failures of the manager and of the streaming transport decoder.
#[derive(Debug)]
pub enum FoundryError {
    /// No active service: the session has no service URI yet.
    NotBound,
    /// Connection-level failure, distinct from an HTTP error status.
    Unreachable,
    /// The service answered with a non-success HTTP status; carries the
    /// status code and the response body.
    HttpStatus(u16, String),
    /// A response body could not be parsed as JSON, or had the wrong shape.
    DecodeError,
    /// A streaming response ended without any accumulated body.
    EmptyBody,
    /// A streaming response body did not end in `}`.
    MalformedBody,
    /// No catalog entry matches the given alias or id.
    NotFound(String),
    /// The given alias or id was empty.
    EmptyKey,
}

/// The description `message` returns for each error.
pub open spec fn message_of(e: FoundryError) -> Seq<char> {
    match e {
        FoundryError::NotBound => "Service URI is not set. Please start the service first."@,
        FoundryError::Unreachable => "Could not connect to the service. Please check that the service is running and the host URL is correct."@,
        FoundryError::HttpStatus(code, body) => "HTTP response error: "@ + crate::text::dec_chars(
            code as nat,
        ) + " - "@ + body@,
        FoundryError::DecodeError => "JSON parsing error"@,
        FoundryError::EmptyBody => "Empty response body"@,
        FoundryError::MalformedBody => "Invalid JSON response"@,
        FoundryError::NotFound(key) => "Model "@ + key@ + " not found in the catalog"@,
        FoundryError::EmptyKey => "The provided model alias or ID was empty."@,
    }
}

impl FoundryError {
    /// Human-readable description of the error.
    pub fn message(&self) -> (r: String)
        ensures
            r@ == message_of(*self),
    {
        match self {
            FoundryError::NotBound => String::from_str(
                "Service URI is not set. Please start the service first.",
            ),
            FoundryError::Unreachable => String::from_str(
                "Could not connect to the service. Please check that the service is running and the host URL is correct.",
            ),
            FoundryError::HttpStatus(code, body) => {
                let mut r = String::from_str("HTTP response error: ");
                let digits = crate::text::u16_to_string(*code);
                r.append(digits.as_str());
                r.append(" - ");
                r.append(body.as_str());
                r
            },
            FoundryError::DecodeError => String::from_str("JSON parsing error"),
            FoundryError::EmptyBody => String::from_str("Empty response body"),
            FoundryError::MalformedBody => String::from_str("Invalid JSON response"),
            FoundryError::NotFound(key) => {
                let mut r = String::from_str("Model ");
                r.append(key.as_str());
                r.append(" not found in the catalog");
                r
            },
            FoundryError::EmptyKey => String::from_str(
                "The provided model alias or ID was empty.",
            ),
        }
    }
}

} // verus!
