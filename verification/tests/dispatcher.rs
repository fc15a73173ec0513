use assinador::{DocumentSigningError, SigningDispatcher};

struct StubSigner(&'static str);

impl StubSigner {
    fn provider_name(&self) -> &'static str {
        self.0
    }
}

fn dispatcher() -> SigningDispatcher<StubSigner> {
    SigningDispatcher::new(StubSigner("VIDaaS"))
}

#[test]
fn routes_known_provider() {
    let d = dispatcher();
    assert_eq!(d.get_signer("vidaas").unwrap().provider_name(), "VIDaaS");
}

#[test]
fn rejects_unknown_provider() {
    let d = dispatcher();
    match d.get_signer("bogus") {
        Err(DocumentSigningError::ProviderError(_)) => {}
        _ => panic!("expected ProviderError for unknown provider"),
    }
}

#[test]
fn unknown_provider_message_names_the_provider() {
    let d = dispatcher();
    match d.get_signer("safeweb") {
        Err(DocumentSigningError::ProviderError(m)) => {
            assert_eq!(m, "Provedor de certificado desconhecido: safeweb")
        }
        _ => panic!("expected ProviderError"),
    }
}

#[test]
fn provider_names_are_case_sensitive() {
    let d = dispatcher();
    assert!(d.get_signer("VIDaaS").is_err());
    assert!(d.get_signer("").is_err());
}
