use assinador::{SigningError, VidaasConfig};

#[test]
fn from_vars_errors_without_client_id() {
    let err = VidaasConfig::from_vars(None, None, None).unwrap_err();
    match err {
        SigningError::ConfigError(m) => assert_eq!(m, "VIDAAS_CLIENT_ID not set"),
        _ => panic!("expected ConfigError"),
    }
}

#[test]
fn from_vars_errors_without_client_secret() {
    let err = VidaasConfig::from_vars(None, Some("id".into()), None).unwrap_err();
    match err {
        SigningError::ConfigError(m) => assert_eq!(m, "VIDAAS_CLIENT_SECRET not set"),
        _ => panic!("expected ConfigError"),
    }
}

#[test]
fn from_vars_defaults_to_production() {
    let cfg = VidaasConfig::from_vars(None, Some("id".into()), Some("s".into())).unwrap();
    assert_eq!(cfg.base_url, "https://certificado.vidaas.com.br");
    assert_eq!(cfg.client_id, "id");
    assert_eq!(cfg.client_secret, "s");
}

#[test]
fn from_vars_keeps_given_base_url() {
    let cfg = VidaasConfig::from_vars(
        Some("https://hml-certificado.vidaas.com.br".into()),
        Some("id".into()),
        Some("s".into()),
    )
    .unwrap();
    assert_eq!(cfg.base_url, "https://hml-certificado.vidaas.com.br");
}
