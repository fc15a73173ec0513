//! The error of the VIDaaS client and authorization layer.

use vstd::prelude::*;

use crate::text::concat2;

verus! {

/// Errors of the signing clients (messages in Portuguese).
#[derive(Debug, Clone, PartialEq, Eq)]
pub enum SigningError {
    ConfigError(String),
    NetworkError,
    BadRequest(String),
    ValidationError(String),
    Unauthorized,
}

impl SigningError {
    /// The human-readable message of the error.
    pub open spec fn message(&self) -> Seq<char> {
        match self {
            SigningError::ConfigError(m) => "Erro de configuração da assinatura: "@ + m@,
            SigningError::NetworkError => "Erro de comunicação com o provedor de assinatura"@,
            SigningError::BadRequest(m) => m@,
            SigningError::ValidationError(m) => m@,
            SigningError::Unauthorized => "Não autorizado pelo provedor de assinatura"@,
        }
    }

    /// Renders the error as its message.
    pub fn to_string(&self) -> (s: String)
        ensures
            s@ == self.message(),
    {
        match self {
            SigningError::ConfigError(m) => concat2("Erro de configuração da assinatura: ", m.as_str()),
            SigningError::NetworkError => String::from_str("Erro de comunicação com o provedor de assinatura"),
            SigningError::BadRequest(m) => m.clone(),
            SigningError::ValidationError(m) => m.clone(),
            SigningError::Unauthorized => String::from_str("Não autorizado pelo provedor de assinatura"),
        }
    }
}

} // verus!
