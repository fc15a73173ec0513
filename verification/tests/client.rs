use assinador::client::{
    check_signature_batch, client_token_form, client_token_outcome, client_token_url,
    discovery_outcome, exchange_form, exchange_outcome, poll_outcome, poll_url,
    push_authorization_outcome, push_authorization_request_url, push_authorization_url,
    signature_outcome, signatures_url, status_line, strip_prefix, token_url,
    user_discovery_request, user_discovery_url, PollAuthResponse, SignatureResponse,
};
use assinador::{SigningError, VidaasConfig};

fn config() -> VidaasConfig {
    VidaasConfig { base_url: "http://h".into(), client_id: "cid".into(), client_secret: "s".into() }
}

#[test]
fn endpoint_urls() {
    let c = config();
    assert_eq!(client_token_url(&c), "http://h/v0/oauth/client_token");
    assert_eq!(user_discovery_url(&c), "http://h/v0/oauth/user-discovery");
    assert_eq!(token_url(&c), "http://h/v0/oauth/token");
    assert_eq!(signatures_url(&c), "http://h/v0/oauth/signatures");
    assert_eq!(
        poll_url(&c, "abc-123"),
        "http://h/valid/api/v1/trusted-services/authentications?code=abc-123"
    );
}

#[test]
fn push_authorization_url_carries_challenge_and_hint() {
    assert_eq!(
        push_authorization_url(&config(), "CH", "12345678900"),
        "http://h/v0/oauth/authorize?client_id=cid&code_challenge=CH&code_challenge_method=S256&response_type=code&redirect_uri=push://&scope=signature_session&lifetime=604800&login_hint=12345678900"
    );
}

#[test]
fn client_token_outcomes() {
    assert_eq!(client_token_outcome(200, Some("ct".into())), Ok("ct".to_string()));
    assert_eq!(client_token_outcome(401, Some("ct".into())), Err(SigningError::Unauthorized));
    assert_eq!(
        client_token_outcome(200, None),
        Err(SigningError::BadRequest("Invalid token response format".into()))
    );
}

#[test]
fn discover_user_returns_true_for_status_y() {
    assert_eq!(discovery_outcome(200, Some("OK"), Some("Y".into())), Ok(true));
    assert_eq!(discovery_outcome(200, Some("OK"), Some("N".into())), Ok(false));
    assert_eq!(
        discovery_outcome(404, Some("Not Found"), None),
        Err(SigningError::BadRequest("User discovery failed: 404 Not Found".into()))
    );
    assert_eq!(
        discovery_outcome(200, Some("OK"), None),
        Err(SigningError::BadRequest("Invalid response format".into()))
    );
}

#[test]
fn push_authorization_parses_code() {
    assert_eq!(
        push_authorization_outcome(200, Some("OK"), Some("code=abc-123".into())),
        Ok("abc-123".to_string())
    );
    assert_eq!(
        push_authorization_outcome(200, Some("OK"), Some("nope".into())),
        Err(SigningError::BadRequest(
            "Invalid response format, expected 'code=...', got: nope".into()
        ))
    );
    assert_eq!(
        push_authorization_outcome(400, Some("Bad Request"), Some("bad cpf".into())),
        Err(SigningError::BadRequest("Push authorization failed: 400 Bad Request - bad cpf".into()))
    );
    assert_eq!(
        push_authorization_outcome(499, None, None),
        Err(SigningError::BadRequest(
            "Push authorization failed: 499 <unknown status code> - Unknown error".into()
        ))
    );
    assert_eq!(
        push_authorization_outcome(200, Some("OK"), None),
        Err(SigningError::BadRequest("Failed to read response".into()))
    );
}

#[test]
fn strip_prefix_cases() {
    assert_eq!(strip_prefix("code=", "code="), Some(String::new()));
    assert_eq!(strip_prefix("cod", "code="), None);
    assert_eq!(strip_prefix("çode=x", "code="), None);
}

#[test]
fn poll_pending_returns_304_with_none() {
    let (body, status) = poll_outcome(304, None).unwrap();
    assert_eq!(status, 304);
    assert!(body.authorization_token.is_none());
}

#[test]
fn poll_approved_returns_token() {
    let body = PollAuthResponse {
        authorization_token: Some("tok".into()),
        redirect_url: Some("push://done".into()),
    };
    let (body, status) = poll_outcome(200, Some(body)).unwrap();
    assert_eq!(status, 200);
    assert_eq!(body.authorization_token.as_deref(), Some("tok"));
}

#[test]
fn poll_other_status_is_an_error() {
    assert_eq!(
        poll_outcome(404, None).unwrap_err(),
        SigningError::BadRequest("Authentication polling failed: 404".into())
    );
    assert_eq!(
        poll_outcome(200, None).unwrap_err(),
        SigningError::BadRequest("Invalid response format".into())
    );
}

#[test]
fn exchange_code_returns_access_token() {
    assert_eq!(exchange_outcome(200, Some(("at".into(), 604800))), Ok(("at".to_string(), 604800)));
    assert_eq!(exchange_outcome(400, None), Err(SigningError::Unauthorized));
    assert_eq!(
        exchange_outcome(200, None),
        Err(SigningError::BadRequest("Invalid token response format".into()))
    );
}

#[test]
fn sign_documents_rejects_empty_list() {
    assert_eq!(
        check_signature_batch(&vec![]),
        Err(SigningError::ValidationError("Cannot sign empty document list".into()))
    );
}

#[test]
fn signature_failures_quote_short_bodies_only() {
    assert_eq!(
        signature_outcome(403, Some("denied".into()), None).unwrap_err(),
        SigningError::BadRequest("Document signature failed: denied (Status: 403)".into())
    );
    assert_eq!(
        signature_outcome(400, Some("x".repeat(100)), None).unwrap_err(),
        SigningError::BadRequest("Document signature failed: See logs for details (Status: 400)".into())
    );
    assert_eq!(
        signature_outcome(404, None, None).unwrap_err(),
        SigningError::BadRequest(
            "Document signature failed: Unable to read error response (Status: 404)".into()
        )
    );
    assert_eq!(
        signature_outcome(200, None, None).unwrap_err(),
        SigningError::BadRequest("Invalid signature response format".into())
    );
}

#[test]
fn sign_documents_parses_signatures() {
    let resp = SignatureResponse { signatures: vec![], certificate_alias: "alias".into() };
    let out = signature_outcome(200, None, Some(resp)).unwrap();
    assert_eq!(out.certificate_alias, "alias");
}

#[test]
fn server_errors_are_network_errors() {
    for status in [500u16, 502, 503, 599] {
        assert_eq!(client_token_outcome(status, None), Err(SigningError::NetworkError));
        assert_eq!(discovery_outcome(status, None, None), Err(SigningError::NetworkError));
        assert_eq!(push_authorization_outcome(status, None, None), Err(SigningError::NetworkError));
        assert_eq!(poll_outcome(status, None).unwrap_err(), SigningError::NetworkError);
        assert_eq!(exchange_outcome(status, None), Err(SigningError::NetworkError));
        assert_eq!(signature_outcome(status, None, None).unwrap_err(), SigningError::NetworkError);
    }
}

#[test]
fn rejected_exchange_is_unauthorized() {
    assert_eq!(exchange_outcome(401, None), Err(SigningError::Unauthorized));
    assert_eq!(exchange_outcome(400, None), Err(SigningError::Unauthorized));
}

#[test]
fn status_lines() {
    assert_eq!(status_line(404, Some("Not Found")), "404 Not Found");
    assert_eq!(status_line(299, None), "299 <unknown status code>");
}

#[test]
fn request_forms() {
    let c = config();
    let pairs = |f: Vec<(String, String)>| {
        f.into_iter().map(|(a, b)| format!("{a}={b}")).collect::<Vec<_>>().join("&")
    };
    assert_eq!(
        pairs(client_token_form(&c)),
        "grant_type=client_credentials&client_id=cid&client_secret=s"
    );
    assert_eq!(
        pairs(exchange_form(&c, "tok", "ver")),
        "grant_type=authorization_code&code=tok&code_verifier=ver&client_id=cid&client_secret=s"
    );
    let body = user_discovery_request(&c, "12345678900");
    assert_eq!(body.client_id, "cid");
    assert_eq!(body.client_secret, "s");
    assert_eq!(body.user_cpf_cnpj, "12345678900");
    assert!(body.val_cpf_cnpj);
}

#[test]
fn push_request_sends_only_the_challenge() {
    let verifier = "dBjftJeZ4CVP-mB92K27uhbUJU1p1r_wW1gFWFOEjXk";
    let url = push_authorization_request_url(&config(), verifier, "12345678900");
    assert_eq!(
        url,
        push_authorization_url(&config(), "E9Melhoa2OwvFrEMTJguCHaoeK1t8URWbuGJSstw-cM", "12345678900")
    );
    assert!(!url.contains(verifier));
}
