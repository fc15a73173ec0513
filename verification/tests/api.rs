use assinador::api::{
    ApiError, ExchangeResponse, PollResponse, SignDocIn, SignRequest, SignResponse, StartResponse,
};
use assinador::{
    AccessToken, Approval, DocumentSigningError, PushAuthorization, SignedDocument, SigningError,
};
use base64::Engine;

#[test]
fn signing_errors_map_to_http_answers() {
    let cases = [
        (SigningError::Unauthorized, 401, "unauthorized"),
        (SigningError::NetworkError, 502, "network_error"),
        (SigningError::ConfigError("c".into()), 500, "config_error"),
        (SigningError::ValidationError("v".into()), 422, "validation_error"),
        (SigningError::BadRequest("b".into()), 400, "bad_request"),
    ];
    for (err, status, code) in cases {
        let detail = err.to_string();
        let e = ApiError::from_signing(err);
        assert_eq!(e.status, status);
        assert_eq!(e.code, code);
        assert_eq!(e.detail, detail);
    }
}

#[test]
fn document_errors_map_to_http_answers() {
    let cases = [
        (DocumentSigningError::AuthenticationError("a".into()), 401, "unauthorized"),
        (DocumentSigningError::NetworkError("n".into()), 502, "network_error"),
        (DocumentSigningError::InvalidSignedDocument("i".into()), 422, "invalid_signed_document"),
        (DocumentSigningError::ProviderError("p".into()), 400, "provider_error"),
    ];
    for (err, status, code) in cases {
        let e = ApiError::from_document(err);
        assert_eq!(e.status, status);
        assert_eq!(e.code, code);
    }
    assert_eq!(
        ApiError::from_document(DocumentSigningError::ProviderError("boom".into())).detail,
        "Signing provider error: boom"
    );
}

#[test]
fn bad_request_answer() {
    let e = ApiError::bad_request("x".into());
    assert_eq!((e.status, e.code, e.detail.as_str()), (400, "bad_request", "x"));
}

#[test]
fn auth_answers() {
    let s = StartResponse::from_authorization(PushAuthorization {
        code: "push-code".into(),
        verifier: "v".into(),
    });
    assert_eq!((s.code.as_str(), s.verifier.as_str()), ("push-code", "v"));
    let p = PollResponse::from_approval(Approval::Approved { authorization_token: "tok".into() });
    assert_eq!(p.status, "approved");
    assert_eq!(p.authorization_token.as_deref(), Some("tok"));
    let p = PollResponse::from_approval(Approval::Pending);
    assert_eq!(p.status, "pending");
    assert!(p.authorization_token.is_none());
    let x = ExchangeResponse::from_token(AccessToken { value: "final".into(), expires_in: 604800 });
    assert_eq!((x.access_token.as_str(), x.expires_in), ("final", 604800));
}

#[test]
fn sign_rejects_invalid_base64_document() {
    let req = SignRequest {
        access_token: "at".into(),
        documents: vec![SignDocIn {
            id: "d1".into(),
            alias: "a".into(),
            pdf_base64: "!!!notbase64!!!".into(),
        }],
    };
    let err = req.into_documents().unwrap_err();
    assert_eq!(err.status, 400);
    assert_eq!(err.code, "bad_request");
    assert!(err.detail.starts_with("pdf_base64 inválido para 'd1': "));
}

#[test]
fn sign_request_decodes_documents_in_order() {
    let req = SignRequest {
        access_token: "at".into(),
        documents: vec![
            SignDocIn { id: "d1".into(), alias: "a".into(), pdf_base64: "JVBERi0xLjcK".into() },
            SignDocIn { id: "d2".into(), alias: "b".into(), pdf_base64: "JVBERi1B".into() },
        ],
    };
    let docs = req.into_documents().unwrap();
    assert_eq!(docs.len(), 2);
    assert_eq!(docs[0].id, "d1");
    assert_eq!(docs[0].pdf_bytes, b"%PDF-1.7\n".to_vec());
    assert_eq!(docs[1].alias, "b");
    assert_eq!(docs[1].pdf_bytes, b"%PDF-A".to_vec());
}

#[test]
fn sign_answer_carries_base64_signed_pdf() {
    let resp = SignResponse::from_signed(vec![SignedDocument {
        id: "d1".into(),
        signed_pdf_bytes: b"%PDF-1.7\n".to_vec(),
    }]);
    let signed_b64 = &resp.signed[0].pdf_base64;
    assert_eq!(signed_b64, "JVBERi0xLjcK");
    let decoded = base64::engine::general_purpose::STANDARD.decode(signed_b64).unwrap();
    assert_eq!(&decoded[0..4], b"%PDF");
    assert_eq!(resp.signed[0].id, "d1");
}

#[test]
fn to_document_cases() {
    let d = SignDocIn { id: "d1".into(), alias: "a".into(), pdf_base64: "ignored".into() };
    let doc = d.to_document(Ok(vec![1, 2])).unwrap();
    assert_eq!((doc.id.as_str(), doc.alias.as_str(), doc.pdf_bytes), ("d1", "a", vec![1, 2]));
    let err = d.to_document(Err("Invalid padding".into())).unwrap_err();
    assert_eq!(err.detail, "pdf_base64 inválido para 'd1': Invalid padding");
    assert_eq!(err.status, 400);
}

#[test]
fn rejected_exchange_answers_401() {
    let err = assinador::client::exchange_outcome(400, None).unwrap_err();
    let answer = ApiError::from_signing(err);
    assert_eq!((answer.status, answer.code), (401, "unauthorized"));
}
