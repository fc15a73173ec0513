use assinador::adapter::SigningStep;
use assinador::client::{SignatureResponse, SignatureResult};
use assinador::{DocumentSigningError, SigningError, UnsignedDocument, VidaasSigningAdapter};

type Adapter = VidaasSigningAdapter<()>;

fn doc(id: &str) -> UnsignedDocument {
    UnsignedDocument { id: id.into(), alias: "a".into(), pdf_bytes: b"%PDF-1.7\n".to_vec() }
}

fn sig(id: &str, file: &str) -> SignatureResult {
    SignatureResult { id: id.into(), raw_signature: "r".into(), file_base64_signed: file.into() }
}

fn reply(sigs: Vec<SignatureResult>) -> Result<SignatureResponse, SigningError> {
    Ok(SignatureResponse { signatures: sigs, certificate_alias: "alias".into() })
}

#[test]
fn signs_and_decodes_pdf() {
    // base64 of "%PDF-1.7\n" = "JVBERi0xLjcK"
    let docs = vec![doc("d1")];
    assert!(matches!(Adapter::signing_request(&docs), SigningStep::Send(_)));
    let signed = Adapter::signing_outcome(&docs, reply(vec![sig("d1", "JVBERi0xLjcK")])).unwrap();
    assert_eq!(signed.len(), 1);
    assert_eq!(&signed[0].signed_pdf_bytes[0..4], b"%PDF");
}

#[test]
fn rejects_non_pdf_signed_bytes() {
    // base64 of "notpdf" = "bm90cGRm"
    let docs = vec![doc("d1")];
    let err = Adapter::signing_outcome(&docs, reply(vec![sig("d1", "bm90cGRm")])).unwrap_err();
    assert!(matches!(err, DocumentSigningError::InvalidSignedDocument(_)));
    assert_eq!(err.to_string(), "Invalid signed document: VIDaaS returned invalid d1 PDF");
}

#[test]
fn prepare_document_hashes_and_encodes() {
    let prepared = Adapter::prepare_document(&doc("d1"));
    assert_eq!(prepared.id, "d1");
    assert_eq!(prepared.alias, "a");
    assert_eq!(prepared.hash, "Bxb5Jkyf4Z9ddFUnYQfz3cwdNJf2PWBomnNViuihv14=");
    assert_eq!(prepared.hash_algorithm, "2.16.840.1.101.3.4.2.1");
    assert_eq!(prepared.signature_format, "PAdES_AD_RB");
    assert_eq!(prepared.base64_content, "JVBERi0xLjcK");
    assert_eq!(prepared.pdf_signature_page, Some(false));
}

#[test]
fn empty_batch_sends_nothing() {
    match Adapter::signing_request(&vec![]) {
        SigningStep::Done(Ok(v)) => assert!(v.is_empty()),
        _ => panic!("expected an empty result without a request"),
    }
}

#[test]
fn batch_keeps_document_order() {
    let batch = match Adapter::signing_request(&vec![doc("x"), doc("y")]) {
        SigningStep::Send(b) => b,
        SigningStep::Done(_) => panic!("expected a batch"),
    };
    assert_eq!(batch.len(), 2);
    assert_eq!(batch[0].id, "x");
    assert_eq!(batch[1].id, "y");
}

#[test]
fn signatures_are_matched_by_id_in_document_order() {
    let docs = vec![doc("a"), doc("b")];
    // "%PDF-A" and "%PDF-B"
    let signed = Adapter::signing_outcome(
        &docs,
        reply(vec![sig("b", "JVBERi1C"), sig("a", "JVBERi1B")]),
    )
    .unwrap();
    assert_eq!(signed[0].id, "a");
    assert_eq!(signed[0].signed_pdf_bytes, b"%PDF-A".to_vec());
    assert_eq!(signed[1].id, "b");
    assert_eq!(signed[1].signed_pdf_bytes, b"%PDF-B".to_vec());
}

#[test]
fn line_breaks_in_signed_file_are_ignored() {
    let docs = vec![doc("d1")];
    let signed = Adapter::signing_outcome(&docs, reply(vec![sig("d1", "JVBE\r\nRi0x\nLjcK\n")])).unwrap();
    assert_eq!(signed[0].signed_pdf_bytes, b"%PDF-1.7\n".to_vec());
}

#[test]
fn count_mismatch_is_a_provider_error() {
    let docs = vec![doc("a"), doc("b")];
    let err = Adapter::signing_outcome(&docs, reply(vec![sig("a", "JVBERi1B")])).unwrap_err();
    assert_eq!(
        err,
        DocumentSigningError::ProviderError("Expected 2 signatures from VIDaaS, got 1".into())
    );
}

#[test]
fn missing_signature_is_a_provider_error() {
    let docs = vec![doc("a")];
    let err = Adapter::signing_outcome(&docs, reply(vec![sig("z", "JVBERi1B")])).unwrap_err();
    assert_eq!(
        err,
        DocumentSigningError::ProviderError(
            "VIDaaS response missing signature for document 'a'".into()
        )
    );
}

#[test]
fn empty_signed_file_is_invalid() {
    let docs = vec![doc("a")];
    let err = Adapter::signing_outcome(&docs, reply(vec![sig("a", "")])).unwrap_err();
    assert_eq!(
        err,
        DocumentSigningError::InvalidSignedDocument("VIDaaS did not return a signed a PDF".into())
    );
}

#[test]
fn undecodable_signed_file_is_invalid() {
    let docs = vec![doc("a")];
    let err = Adapter::signing_outcome(&docs, reply(vec![sig("a", "!!!!")])).unwrap_err();
    match err {
        DocumentSigningError::InvalidSignedDocument(m) => {
            assert!(m.starts_with("Failed to decode signed a PDF: "))
        }
        other => panic!("unexpected {other:?}"),
    }
}

#[test]
fn failed_request_maps_by_cause() {
    let docs = vec![doc("a")];
    assert_eq!(
        Adapter::signing_outcome(&docs, Err(SigningError::Unauthorized)).unwrap_err(),
        DocumentSigningError::AuthenticationError("Não autorizado pelo provedor de assinatura".into())
    );
    assert_eq!(
        Adapter::signing_outcome(&docs, Err(SigningError::NetworkError)).unwrap_err(),
        DocumentSigningError::NetworkError("Erro de comunicação com o provedor de assinatura".into())
    );
    assert_eq!(
        Adapter::signing_outcome(&docs, Err(SigningError::BadRequest("x".into()))).unwrap_err(),
        DocumentSigningError::ProviderError("x".into())
    );
}

#[test]
fn unreachable_provider_answers_502() {
    let docs = vec![doc("a")];
    let reply = assinador::client::signature_outcome(503, None, None);
    let err = Adapter::signing_outcome(&docs, reply).unwrap_err();
    assert_eq!(assinador::api::ApiError::from_document(err).status, 502);
}

#[test]
fn prepared_content_decodes_back_to_the_pdf() {
    let d = doc("d1");
    let prepared = Adapter::prepare_document(&d);
    let sig = SignatureResult {
        id: "d1".into(),
        raw_signature: "r".into(),
        file_base64_signed: prepared.base64_content,
    };
    assert_eq!(Adapter::decode_signed_pdf(&sig, "any"), Ok(d.pdf_bytes));
}

#[test]
fn adapter_reports_its_provider_and_client() {
    let adapter = VidaasSigningAdapter::new(7u8);
    assert_eq!(adapter.provider_name(), "VIDaaS");
    assert_eq!(*adapter.get_client(), 7u8);
}

#[test]
fn validate_signed_pdf_cases() {
    assert_eq!(Adapter::validate_signed_pdf(Ok(b"%PDF".to_vec()), "x"), Ok(b"%PDF".to_vec()));
    assert_eq!(
        Adapter::validate_signed_pdf(Ok(b"%PD".to_vec()), "x"),
        Err(DocumentSigningError::InvalidSignedDocument("VIDaaS returned invalid x PDF".into()))
    );
    assert_eq!(
        Adapter::validate_signed_pdf(Err("Invalid padding".into()), "x"),
        Err(DocumentSigningError::InvalidSignedDocument(
            "Failed to decode signed x PDF: Invalid padding".into()
        ))
    );
}

#[test]
fn strip_line_breaks_removes_crlf_and_lf_only() {
    assert_eq!(
        assinador::adapter::strip_line_breaks_bytes(b"a\r\nb\nc\rd\r\r\n"),
        b"abc\rd\r".to_vec()
    );
}
