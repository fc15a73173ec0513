//! The HTTP service's request and response bodies, the logic of its
//! handlers, and the mapping of errors onto HTTP answers.
//!
//! PDFs cross the wire as standard base64. An error answer carries an HTTP
//! status, a short machine-readable code and the error's message.

use vstd::prelude::*;
use vstd::string::StringSliceAdditionalSpecFns;

use crate::codec::{
    base64_standard_decode, base64_standard_encode, decode_base64_standard,
    encode_base64_standard,
};
use crate::error::SigningError;
use crate::port::{DocumentSigningError, SignedDocument, UnsignedDocument};
use crate::signer::{AccessToken, Approval, PushAuthorization};
use crate::text::concat3;

verus! {

/// Body of `POST /v1/auth/start`.
#[derive(Debug, Clone)]
pub struct StartRequest {
    pub cpf: String,
}

/// Answer of `POST /v1/auth/start`.
#[derive(Debug, Clone)]
pub struct StartResponse {
    pub code: String,
    pub verifier: String,
}

/// Query of `GET /v1/auth/poll`.
#[derive(Debug, Clone)]
pub struct PollQuery {
    pub code: String,
}

/// Answer of `GET /v1/auth/poll`: `"pending"` or `"approved"`; the
/// authorization token is present only when approved, and is what
/// `/v1/auth/exchange` takes.
#[derive(Debug, Clone)]
pub struct PollResponse {
    pub status: &'static str,
    pub authorization_token: Option<String>,
}

/// Body of `POST /v1/auth/exchange`.
#[derive(Debug, Clone)]
pub struct ExchangeRequest {
    pub authorization_token: String,
    pub verifier: String,
}

/// Answer of `POST /v1/auth/exchange`.
#[derive(Debug, Clone)]
pub struct ExchangeResponse {
    pub access_token: String,
    pub expires_in: u32,
}

/// Body of `POST /v1/sign`.
#[derive(Debug, Clone)]
pub struct SignRequest {
    pub access_token: String,
    pub documents: Vec<SignDocIn>,
}

/// A document of `POST /v1/sign`, its PDF in base64.
#[derive(Debug, Clone)]
pub struct SignDocIn {
    pub id: String,
    pub alias: String,
    pub pdf_base64: String,
}

/// Answer of `POST /v1/sign`.
#[derive(Debug, Clone)]
pub struct SignResponse {
    pub signed: Vec<SignDocOut>,
}

/// A signed document of `POST /v1/sign`, its PDF in base64.
#[derive(Debug, Clone)]
pub struct SignDocOut {
    pub id: String,
    pub pdf_base64: String,
}

/// An error answer: HTTP status, machine-readable code, message.
#[derive(Debug, Clone)]
pub struct ApiError {
    pub status: u16,
    pub code: &'static str,
    pub detail: String,
}

/// The HTTP status and code of a client-layer error.
pub open spec fn signing_error_answer(err: SigningError) -> (u16, Seq<char>) {
    match err {
        SigningError::Unauthorized => (401, "unauthorized"@),
        SigningError::NetworkError => (502, "network_error"@),
        SigningError::ConfigError(_) => (500, "config_error"@),
        SigningError::ValidationError(_) => (422, "validation_error"@),
        SigningError::BadRequest(_) => (400, "bad_request"@),
    }
}

/// The HTTP status and code of a signing-port error.
pub open spec fn document_error_answer(err: DocumentSigningError) -> (u16, Seq<char>) {
    match err {
        DocumentSigningError::AuthenticationError(_) => (401, "unauthorized"@),
        DocumentSigningError::NetworkError(_) => (502, "network_error"@),
        DocumentSigningError::InvalidSignedDocument(_) => (422, "invalid_signed_document"@),
        DocumentSigningError::ProviderError(_) => (400, "provider_error"@),
    }
}

/// The HTTP answers of errors: a refused authorization is 401, a failure to
/// reach the provider 502, a configuration error 500, a validation error
/// and an invalid signed document 422, and a bad request or a provider
/// error 400.
pub proof fn lemma_error_answers(m: String)
    ensures
        signing_error_answer(SigningError::Unauthorized) == (401u16, "unauthorized"@),
        signing_error_answer(SigningError::NetworkError) == (502u16, "network_error"@),
        signing_error_answer(SigningError::ConfigError(m)) == (500u16, "config_error"@),
        signing_error_answer(SigningError::ValidationError(m)) == (422u16, "validation_error"@),
        signing_error_answer(SigningError::BadRequest(m)) == (400u16, "bad_request"@),
        document_error_answer(DocumentSigningError::AuthenticationError(m)) == (
            401u16,
            "unauthorized"@,
        ),
        document_error_answer(DocumentSigningError::NetworkError(m)) == (502u16, "network_error"@),
        document_error_answer(DocumentSigningError::InvalidSignedDocument(m)) == (
            422u16,
            "invalid_signed_document"@,
        ),
        document_error_answer(DocumentSigningError::ProviderError(m)) == (
            400u16,
            "provider_error"@,
        ),
{
}

impl ApiError {
    /// The answer to a client-layer error.
    pub fn from_signing(err: SigningError) -> (r: ApiError)
        ensures
            (r.status, r.code@) == signing_error_answer(err),
            r.detail@ == err.message(),
    {
        let detail = err.to_string();
        let (status, code) = match &err {
            SigningError::Unauthorized => (401u16, "unauthorized"),
            SigningError::NetworkError => (502u16, "network_error"),
            SigningError::ConfigError(_) => (500u16, "config_error"),
            SigningError::ValidationError(_) => (422u16, "validation_error"),
            SigningError::BadRequest(_) => (400u16, "bad_request"),
        };
        ApiError { status, code, detail }
    }

    /// The answer to a signing-port error.
    pub fn from_document(err: DocumentSigningError) -> (r: ApiError)
        ensures
            (r.status, r.code@) == document_error_answer(err),
            r.detail@ == err.message(),
    {
        let detail = err.to_string();
        let (status, code) = match &err {
            DocumentSigningError::AuthenticationError(_) => (401u16, "unauthorized"),
            DocumentSigningError::NetworkError(_) => (502u16, "network_error"),
            DocumentSigningError::InvalidSignedDocument(_) => (422u16, "invalid_signed_document"),
            DocumentSigningError::ProviderError(_) => (400u16, "provider_error"),
        };
        ApiError { status, code, detail }
    }

    /// A `400 bad_request` answer with the given message.
    pub fn bad_request(detail: String) -> (r: ApiError)
        ensures
            r.status == 400,
            r.code@ == "bad_request"@,
            r.detail@ == detail@,
    {
        ApiError { status: 400, code: "bad_request", detail }
    }
}

impl StartResponse {
    /// The answer to a started push authorization.
    pub fn from_authorization(auth: PushAuthorization) -> (r: StartResponse)
        ensures
            r.code == auth.code,
            r.verifier == auth.verifier,
    {
        StartResponse { code: auth.code, verifier: auth.verifier }
    }
}

impl PollResponse {
    /// The answer to a poll: `"approved"` with the authorization token, or
    /// `"pending"` without one.
    pub fn from_approval(approval: Approval) -> (r: PollResponse)
        ensures
            match approval {
                Approval::Approved { authorization_token } => r.status@ == "approved"@
                    && r.authorization_token == Some(authorization_token),
                Approval::Pending => r.status@ == "pending"@ && r.authorization_token is None,
            },
    {
        match approval {
            Approval::Approved { authorization_token } => PollResponse {
                status: "approved",
                authorization_token: Some(authorization_token),
            },
            Approval::Pending => PollResponse { status: "pending", authorization_token: None },
        }
    }
}

impl ExchangeResponse {
    /// The answer to a completed exchange.
    pub fn from_token(token: AccessToken) -> (r: ExchangeResponse)
        ensures
            r.access_token == token.value,
            r.expires_in == token.expires_in,
    {
        ExchangeResponse { access_token: token.value, expires_in: token.expires_in }
    }
}

/// The PDFs of the documents of a sign request, decoded in order, or the
/// message of the first document whose base64 does not decode.
pub open spec fn decoded_pdfs(docs: Seq<SignDocIn>) -> Result<Seq<Seq<u8>>, Seq<char>>
    decreases docs.len(),
{
    if docs.len() == 0 {
        Ok(Seq::empty())
    } else {
        match decoded_pdfs(docs.drop_last()) {
            Err(m) => Err(m),
            Ok(prev) => match base64_standard_decode(
                vstd::utf8::encode_utf8(docs.last().pdf_base64@),
            ) {
                Ok(bytes) => Ok(prev.push(bytes)),
                Err(e) => Err("pdf_base64 inválido para '"@ + docs.last().id@ + "': "@ + e),
            },
        }
    }
}

proof fn lemma_decoded_error_stable(docs: Seq<SignDocIn>, n: int)
    requires
        0 <= n <= docs.len(),
        decoded_pdfs(docs.take(n)) is Err,
    ensures
        decoded_pdfs(docs) == decoded_pdfs(docs.take(n)),
    decreases docs.len() - n,
{
    if n < docs.len() {
        assert(docs.take(n + 1).drop_last() =~= docs.take(n));
        lemma_decoded_error_stable(docs, n + 1);
    } else {
        assert(docs.take(n) =~= docs);
    }
}

/// The PDFs of a sign request are the standard base64 decodes of the
/// documents' texts, as given: decoding succeeds exactly when every text
/// decodes, each PDF is then the decode of its own document's text, and
/// otherwise the message names the first document whose text does not
/// decode, with the decoder's error.
pub proof fn lemma_decoded_pdfs_as_given(docs: Seq<SignDocIn>)
    ensures
        decoded_pdfs(docs) is Ok <==> forall|i: int|
            0 <= i < docs.len() ==> base64_standard_decode(
                vstd::utf8::encode_utf8((#[trigger] docs[i]).pdf_base64@),
            ) is Ok,
        decoded_pdfs(docs) matches Ok(p) ==> p.len() == docs.len() && forall|i: int|
            0 <= i < docs.len() ==> base64_standard_decode(
                vstd::utf8::encode_utf8((#[trigger] docs[i]).pdf_base64@),
            ) == Ok::<Seq<u8>, Seq<char>>(p[i]),
        decoded_pdfs(docs) matches Err(m) ==> exists|i: int|
            0 <= i < docs.len() && (forall|k: int|
                0 <= k < i ==> base64_standard_decode(
                    vstd::utf8::encode_utf8((#[trigger] docs[k]).pdf_base64@),
                ) is Ok) && base64_standard_decode(vstd::utf8::encode_utf8(docs[i].pdf_base64@)) is Err
                && m == "pdf_base64 inválido para '"@ + docs[i].id@ + "': "@ + base64_standard_decode(
                vstd::utf8::encode_utf8(docs[i].pdf_base64@),
            )->Err_0,
    decreases docs.len(),
{
    if docs.len() > 0 {
        let prev = docs.drop_last();
        lemma_decoded_pdfs_as_given(prev);
        let n = docs.len() - 1;
        assert forall|i: int| 0 <= i < prev.len() implies prev[i] == docs[i] by {}
        if decoded_pdfs(docs) is Ok {
            assert forall|i: int| 0 <= i < docs.len() implies base64_standard_decode(
                vstd::utf8::encode_utf8((#[trigger] docs[i]).pdf_base64@),
            ) is Ok by {
                if i < n {
                    assert(prev[i] == docs[i]);
                }
            }
        } else if decoded_pdfs(prev) is Err {
            let m = decoded_pdfs(prev)->Err_0;
            let i = choose|i: int|
                0 <= i < prev.len() && (forall|k: int|
                    0 <= k < i ==> base64_standard_decode(
                        vstd::utf8::encode_utf8((#[trigger] prev[k]).pdf_base64@),
                    ) is Ok) && base64_standard_decode(vstd::utf8::encode_utf8(prev[i].pdf_base64@)) is Err
                    && m == "pdf_base64 inválido para '"@ + prev[i].id@ + "': "@ + base64_standard_decode(
                    vstd::utf8::encode_utf8(prev[i].pdf_base64@),
                )->Err_0;
            assert(prev[i] == docs[i]);
            assert forall|k: int| 0 <= k < i implies base64_standard_decode(
                vstd::utf8::encode_utf8((#[trigger] docs[k]).pdf_base64@),
            ) is Ok by {
                assert(prev[k] == docs[k]);
            }
        } else {
            assert forall|k: int| 0 <= k < n implies base64_standard_decode(
                vstd::utf8::encode_utf8((#[trigger] docs[k]).pdf_base64@),
            ) is Ok by {
                assert(prev[k] == docs[k]);
            }
            assert(docs.last() == docs[n]);
        }
    }
}

/// `out` are the documents `docs` with the PDFs `pdfs`, in this order.
pub open spec fn are_unsigned_documents(
    out: Seq<UnsignedDocument>,
    docs: Seq<SignDocIn>,
    pdfs: Seq<Seq<u8>>,
) -> bool {
    &&& out.len() == docs.len()
    &&& pdfs.len() == docs.len()
    &&& forall|i: int|
        0 <= i < out.len() ==> {
            &&& (#[trigger] out[i]).id@ == docs[i].id@
            &&& out[i].alias@ == docs[i].alias@
            &&& out[i].pdf_bytes@ == pdfs[i]
        }
}

impl SignDocIn {
    /// The document to sign, from the result of decoding its base64: a
    /// decode failure is a `400 bad_request` naming the document.
    pub fn to_document(&self, decoded: Result<Vec<u8>, String>) -> (r: Result<
        UnsignedDocument,
        ApiError,
    >)
        ensures
            decoded matches Ok(bytes) ==> (r matches Ok(d) && d.id@ == self.id@ && d.alias@
                == self.alias@ && d.pdf_bytes == bytes),
            decoded matches Err(e) ==> (r matches Err(err) && err.status == 400 && err.code@
                == "bad_request"@ && err.detail@ == "pdf_base64 inválido para '"@ + self.id@
                + "': "@ + e@),
    {
        match decoded {
            Ok(bytes) => Ok(
                UnsignedDocument { id: self.id.clone(), alias: self.alias.clone(), pdf_bytes: bytes },
            ),
            Err(e) => {
                let mut msg = concat3("pdf_base64 inválido para '", self.id.as_str(), "': ");
                msg.append(e.as_str());
                Err(ApiError::bad_request(msg))
            },
        }
    }
}

impl SignRequest {
    /// The documents to sign: each PDF decoded from base64, in order. The
    /// first document whose base64 does not decode is a `400 bad_request`
    /// naming it.
    pub fn into_documents(self) -> (r: Result<Vec<UnsignedDocument>, ApiError>)
        ensures
            match (r, decoded_pdfs(self.documents@)) {
                (Ok(out), Ok(pdfs)) => are_unsigned_documents(out@, self.documents@, pdfs),
                (Err(e), Err(m)) => e.status == 400 && e.code@ == "bad_request"@ && e.detail@ == m,
                _ => false,
            },
            r matches Ok(out) ==> (out@.len() == self.documents@.len() && forall|i: int|
                0 <= i < out@.len() ==> {
                    &&& (#[trigger] out@[i]).id@ == self.documents@[i].id@
                    &&& out@[i].alias@ == self.documents@[i].alias@
                    &&& base64_standard_decode(vstd::utf8::encode_utf8(self.documents@[i].pdf_base64@))
                        == Ok::<Seq<u8>, Seq<char>>(out@[i].pdf_bytes@)
                }),
            (forall|i: int|
                0 <= i < self.documents@.len() ==> base64_standard_decode(
                    vstd::utf8::encode_utf8((#[trigger] self.documents@[i]).pdf_base64@),
                ) is Ok) ==> r is Ok,
    {
        let ghost docs = self.documents@;
        proof {
            lemma_decoded_pdfs_as_given(docs);
        }
        let n = self.documents.len();
        let mut out: Vec<UnsignedDocument> = Vec::new();
        let ghost mut pdfs: Seq<Seq<u8>> = Seq::empty();
        let mut i: usize = 0;
        assert(docs.take(0) =~= Seq::<SignDocIn>::empty());
        while i < n
            invariant
                n == docs.len(),
                docs == self.documents@,
                i <= n,
                decoded_pdfs(docs.take(i as int)) == Ok::<Seq<Seq<u8>>, Seq<char>>(pdfs),
                are_unsigned_documents(out@, docs.take(i as int), pdfs),
            decreases n - i,
        {
            let d = &self.documents[i];
            assert(docs.take(i + 1).drop_last() =~= docs.take(i as int));
            assert(docs.take(i + 1).last() == *d);
            match d.to_document(decode_base64_standard(d.pdf_base64.as_str().as_bytes())) {
                Err(e) => {
                    proof {
                        assert(decoded_pdfs(docs.take(i + 1)) == Err::<Seq<Seq<u8>>, Seq<char>>(
                            e.detail@,
                        ));
                        lemma_decoded_error_stable(docs, i + 1);
                    }
                    return Err(e);
                },
                Ok(doc) => {
                    proof {
                        pdfs = pdfs.push(doc.pdf_bytes@);
                    }
                    out.push(doc);
                },
            }
            i = i + 1;
        }
        assert(docs.take(n as int) =~= docs);
        Ok(out)
    }
}

impl SignResponse {
    /// The answer listing the signed documents, each PDF in base64, in the
    /// order given.
    pub fn from_signed(signed: Vec<SignedDocument>) -> (r: SignResponse)
        requires
            forall|i: int|
                0 <= i < signed@.len() ==> (#[trigger] signed@[i]).signed_pdf_bytes@.len()
                    <= isize::MAX,
        ensures
            r.signed@.len() == signed@.len(),
            forall|i: int|
                0 <= i < signed@.len() ==> (#[trigger] r.signed@[i]).id@ == signed@[i].id@
                    && r.signed@[i].pdf_base64@ == base64_standard_encode(
                    signed@[i].signed_pdf_bytes@,
                ),
            forall|i: int|
                0 <= i < signed@.len() ==> base64_standard_decode(
                    vstd::utf8::encode_utf8((#[trigger] r.signed@[i]).pdf_base64@),
                ) == Ok::<Seq<u8>, Seq<char>>(signed@[i].signed_pdf_bytes@),
    {
        let mut out: Vec<SignDocOut> = Vec::new();
        let mut i: usize = 0;
        while i < signed.len()
            invariant
                i <= signed@.len(),
                forall|j: int|
                    0 <= j < signed@.len() ==> (#[trigger] signed@[j]).signed_pdf_bytes@.len()
                        <= isize::MAX,
                out@.len() == i,
                forall|j: int|
                    0 <= j < i ==> (#[trigger] out@[j]).id@ == signed@[j].id@
                        && out@[j].pdf_base64@ == base64_standard_encode(
                        signed@[j].signed_pdf_bytes@,
                    ) && base64_standard_decode(vstd::utf8::encode_utf8(out@[j].pdf_base64@))
                        == Ok::<Seq<u8>, Seq<char>>(signed@[j].signed_pdf_bytes@),
            decreases signed@.len() - i,
        {
            let s = &signed[i];
            let pdf_base64 = encode_base64_standard(s.signed_pdf_bytes.as_slice());
            out.push(SignDocOut { id: s.id.clone(), pdf_base64 });
            i = i + 1;
        }
        SignResponse { signed: out }
    }
}

} // verus!
