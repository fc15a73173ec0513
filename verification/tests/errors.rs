use assinador::{DocumentSigningError, SigningError};

#[test]
fn displays_portuguese_messages() {
    assert_eq!(
        SigningError::Unauthorized.to_string(),
        "Não autorizado pelo provedor de assinatura"
    );
    assert_eq!(
        SigningError::BadRequest("hash inválido".into()).to_string(),
        "hash inválido"
    );
}

#[test]
fn error_display_is_human_readable() {
    assert_eq!(
        DocumentSigningError::ProviderError("boom".into()).to_string(),
        "Signing provider error: boom"
    );
}

#[test]
fn every_signing_error_has_its_message() {
    assert_eq!(
        SigningError::ConfigError("x".into()).to_string(),
        "Erro de configuração da assinatura: x"
    );
    assert_eq!(
        SigningError::NetworkError.to_string(),
        "Erro de comunicação com o provedor de assinatura"
    );
    assert_eq!(SigningError::ValidationError("v".into()).to_string(), "v");
}

#[test]
fn every_document_error_has_its_message() {
    assert_eq!(
        DocumentSigningError::InvalidSignedDocument("a".into()).to_string(),
        "Invalid signed document: a"
    );
    assert_eq!(DocumentSigningError::NetworkError("b".into()).to_string(), "Network error: b");
    assert_eq!(
        DocumentSigningError::AuthenticationError("c".into()).to_string(),
        "Authentication error: c"
    );
}
