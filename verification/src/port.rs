//! The documents handed to a signing provider and the errors of signing.

use vstd::prelude::*;

use crate::text::concat2;

verus! {

/// A document to be signed.
#[derive(Debug, Clone)]
pub struct UnsignedDocument {
    pub id: String,
    pub alias: String,
    pub pdf_bytes: Vec<u8>,
}

/// A signed document.
#[derive(Debug, Clone)]
pub struct SignedDocument {
    pub id: String,
    pub signed_pdf_bytes: Vec<u8>,
}

/// Errors of the document-signing port.
#[derive(Debug, Clone, PartialEq, Eq)]
pub enum DocumentSigningError {
    ProviderError(String),
    InvalidSignedDocument(String),
    NetworkError(String),
    AuthenticationError(String),
}

impl DocumentSigningError {
    /// The human-readable message of the error.
    pub open spec fn message(&self) -> Seq<char> {
        match self {
            DocumentSigningError::ProviderError(m) => "Signing provider error: "@ + m@,
            DocumentSigningError::InvalidSignedDocument(m) => "Invalid signed document: "@ + m@,
            DocumentSigningError::NetworkError(m) => "Network error: "@ + m@,
            DocumentSigningError::AuthenticationError(m) => "Authentication error: "@ + m@,
        }
    }

    /// Renders the error as its message.
    pub fn to_string(&self) -> (s: String)
        ensures
            s@ == self.message(),
    {
        match self {
            DocumentSigningError::ProviderError(m) => concat2("Signing provider error: ", m.as_str()),
            DocumentSigningError::InvalidSignedDocument(m) => concat2("Invalid signed document: ", m.as_str()),
            DocumentSigningError::NetworkError(m) => concat2("Network error: ", m.as_str()),
            DocumentSigningError::AuthenticationError(m) => concat2("Authentication error: ", m.as_str()),
        }
    }
}

} // verus!
