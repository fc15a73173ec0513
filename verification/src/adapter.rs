//! The VIDaaS signing adapter: prepares documents for a batch signature
//! request and turns the provider's reply into signed documents.
//!
//! Preparing a document hashes its PDF with SHA-256 and encodes hash and
//! content in base64. The reply is matched back to the documents by id, in
//! the order of the documents; each signed file is base64-decoded (after
//! line breaks are removed) and must start with the `%PDF` header.

use vstd::prelude::*;
use vstd::string::StringSliceAdditionalSpecFns;

use crate::client::{DocumentForSignature, SignatureResponse, SignatureResult};
use crate::codec::{
    base64_standard_decode, base64_standard_encode, decode_base64_standard,
    encode_base64_standard, is_standard_base64_char, sha256, sha256_digest,
};
use crate::error::SigningError;
use crate::port::{DocumentSigningError, SignedDocument, UnsignedDocument};
use crate::text::{concat2, concat3, decimal, push_decimal, str_eq};

verus! {

/// The object identifier of SHA-256, sent as the hash algorithm.
pub const SHA256_OID: &'static str = "2.16.840.1.101.3.4.2.1";

/// The signature format requested from VIDaaS.
pub const SIGNATURE_FORMAT: &'static str = "PAdES_AD_RB";

/// The provider name used in audit trails.
pub const PROVIDER_NAME: &'static str = "VIDaaS";

/// Whether a document's PDF is small enough to be base64-encoded.
pub open spec fn encodable(doc: UnsignedDocument) -> bool {
    doc.pdf_bytes@.len() <= isize::MAX
}

/// `out` is the signature request for `doc`.
pub open spec fn is_prepared(doc: UnsignedDocument, out: DocumentForSignature) -> bool {
    &&& out.id@ == doc.id@
    &&& out.alias@ == doc.alias@
    &&& out.hash@ == base64_standard_encode(sha256(doc.pdf_bytes@))
    &&& out.hash_algorithm@ == SHA256_OID@
    &&& out.signature_format@ == SIGNATURE_FORMAT@
    &&& out.base64_content@ == base64_standard_encode(doc.pdf_bytes@)
    &&& out.pdf_signature_page == Some(false)
}

/// Whether the byte at `i` of `s` goes when line breaks are removed: every
/// `\n`, and every `\r` that is followed by `\n`. This is the effect of
/// removing all `"\r\n"` and then all `'\n'`.
pub open spec fn is_line_break_at(s: Seq<u8>, i: int) -> bool {
    s[i] == 10u8 || (s[i] == 13u8 && i + 1 < s.len() && s[i + 1] == 10u8)
}

/// The first `n` bytes of `s` with line breaks removed.
pub open spec fn strip_line_breaks_upto(s: Seq<u8>, n: int) -> Seq<u8>
    decreases n,
{
    if n <= 0 {
        Seq::empty()
    } else if is_line_break_at(s, n - 1) {
        strip_line_breaks_upto(s, n - 1)
    } else {
        strip_line_breaks_upto(s, n - 1).push(s[n - 1])
    }
}

/// `s` with line breaks removed.
pub open spec fn strip_line_breaks(s: Seq<u8>) -> Seq<u8> {
    strip_line_breaks_upto(s, s.len() as int)
}

proof fn lemma_strip_upto_no_line_feed(s: Seq<u8>, n: int)
    requires
        n <= s.len(),
    ensures
        forall|i: int|
            0 <= i < strip_line_breaks_upto(s, n).len() ==> #[trigger] strip_line_breaks_upto(
                s,
                n,
            )[i] != 10u8,
    decreases n,
{
    if n > 0 {
        lemma_strip_upto_no_line_feed(s, n - 1);
        let prev = strip_line_breaks_upto(s, n - 1);
        if !is_line_break_at(s, n - 1) {
            assert forall|i: int| 0 <= i < prev.len() + 1 implies #[trigger] prev.push(s[n - 1])[i]
                != 10u8 by {
                if i < prev.len() {
                    assert(prev.push(s[n - 1])[i] == prev[i]);
                }
            }
        }
    }
}

/// Once line breaks are removed, no line feed is left.
pub proof fn lemma_strip_line_breaks_leaves_no_line_feed(s: Seq<u8>)
    ensures
        !strip_line_breaks(s).contains(10u8),
{
    lemma_strip_upto_no_line_feed(s, s.len() as int);
}

proof fn lemma_strip_upto_identity(s: Seq<u8>, n: int)
    requires
        0 <= n <= s.len(),
        forall|i: int| 0 <= i < s.len() ==> #[trigger] s[i] != 10u8 && s[i] != 13u8,
    ensures
        strip_line_breaks_upto(s, n) == s.take(n),
    decreases n,
{
    if n > 0 {
        lemma_strip_upto_identity(s, n - 1);
        assert(s.take(n) =~= s.take(n - 1).push(s[n - 1]));
    } else {
        assert(s.take(0) =~= Seq::<u8>::empty());
    }
}

/// Text that holds neither a line feed nor a carriage return is left as
/// it is when line breaks are removed.
pub proof fn lemma_strip_line_breaks_identity(s: Seq<u8>)
    requires
        forall|i: int| 0 <= i < s.len() ==> #[trigger] s[i] != 10u8 && s[i] != 13u8,
    ensures
        strip_line_breaks(s) == s,
{
    lemma_strip_upto_identity(s, s.len() as int);
    assert(s.take(s.len() as int) =~= s);
}

proof fn lemma_strip_prefix_unchanged(s: Seq<u8>, t: Seq<u8>, m: int)
    requires
        0 <= m <= s.len(),
        s.len() == 0 || s.last() != 13u8,
    ensures
        strip_line_breaks_upto(s + t, m) == strip_line_breaks_upto(s, m),
    decreases m,
{
    if m > 0 {
        lemma_strip_prefix_unchanged(s, t, m - 1);
        let u = s + t;
        assert(u[m - 1] == s[m - 1]);
        if m < s.len() {
            assert(u[m] == s[m]);
        }
        assert(is_line_break_at(u, m - 1) == is_line_break_at(s, m - 1));
    }
}

proof fn lemma_strip_suffix_appended(s: Seq<u8>, t: Seq<u8>, k: int)
    requires
        0 <= k <= t.len(),
        s.len() == 0 || s.last() != 13u8,
    ensures
        strip_line_breaks_upto(s + t, s.len() + k) == strip_line_breaks(s) + strip_line_breaks_upto(
            t,
            k,
        ),
    decreases k,
{
    let u = s + t;
    if k == 0 {
        lemma_strip_prefix_unchanged(s, t, s.len() as int);
        assert(strip_line_breaks(s) + strip_line_breaks_upto(t, 0) =~= strip_line_breaks(s));
    } else {
        lemma_strip_suffix_appended(s, t, k - 1);
        let i = s.len() + k - 1;
        assert(u[i] == t[k - 1]);
        if k < t.len() {
            assert(u[i + 1] == t[k]);
        }
        assert(is_line_break_at(u, i) == is_line_break_at(t, k - 1));
        if !is_line_break_at(t, k - 1) {
            assert(strip_line_breaks(s) + strip_line_breaks_upto(t, k - 1).push(t[k - 1]) =~= (
            strip_line_breaks(s) + strip_line_breaks_upto(t, k - 1)).push(t[k - 1]));
        }
    }
}

/// Removing line breaks works piece by piece, as long as a piece does not
/// end in a carriage return (which could pair with a line feed that
/// follows): a line feed alone and a `\r\n` pair are removed, and any
/// other single byte is kept.
pub proof fn lemma_strip_line_breaks_pieces(s: Seq<u8>, t: Seq<u8>, b: u8)
    ensures
        (s.len() == 0 || s.last() != 13u8) ==> strip_line_breaks(s + t) == strip_line_breaks(s)
            + strip_line_breaks(t),
        strip_line_breaks(seq![b]) == if b == 10u8 {
            Seq::<u8>::empty()
        } else {
            seq![b]
        },
        strip_line_breaks(seq![13u8, 10u8]) == Seq::<u8>::empty(),
        (t.len() == 0 || t[0] != 10u8) ==> strip_line_breaks(seq![13u8] + t) == seq![13u8]
            + strip_line_breaks(t),
{
    if s.len() == 0 || s.last() != 13u8 {
        lemma_strip_suffix_appended(s, t, t.len() as int);
        assert((s + t).len() == s.len() + t.len());
    }
    assert(strip_line_breaks_upto(seq![b], 0) =~= Seq::<u8>::empty());
    assert(strip_line_breaks_upto(seq![b], 0).push(b) =~= seq![b]);
    let crlf = seq![13u8, 10u8];
    assert(strip_line_breaks_upto(crlf, 0) =~= Seq::<u8>::empty());
    assert(is_line_break_at(crlf, 0));
    assert(is_line_break_at(crlf, 1));
    assert(strip_line_breaks_upto(crlf, 1) =~= Seq::<u8>::empty());
    assert(strip_line_breaks_upto(crlf, 2) =~= Seq::<u8>::empty());
    if t.len() == 0 || t[0] != 10u8 {
        let r = seq![13u8];
        let u = r + t;
        assert(strip_line_breaks_upto(u, 0) =~= Seq::<u8>::empty());
        if t.len() > 0 {
            assert(u[1] == t[0]);
        }
        assert(!is_line_break_at(u, 0));
        assert(strip_line_breaks_upto(u, 1) =~= r);
        assert(strip_line_breaks_upto(r, 0) =~= Seq::<u8>::empty());
        assert(!is_line_break_at(r, 0));
        assert(strip_line_breaks(r) =~= r);
        assert(r.last() == 13u8);
        lemma_strip_after_first(r, t, t.len() as int);
        assert(u.len() == 1 + t.len());
    }
}

proof fn lemma_strip_after_first(r: Seq<u8>, t: Seq<u8>, k: int)
    requires
        r == seq![13u8],
        t.len() == 0 || t[0] != 10u8,
        0 <= k <= t.len(),
    ensures
        strip_line_breaks_upto(r + t, 1 + k) == r + strip_line_breaks_upto(t, k),
    decreases k,
{
    let u = r + t;
    if k == 0 {
        assert(strip_line_breaks_upto(u, 0) =~= Seq::<u8>::empty());
        if t.len() > 0 {
            assert(u[1] == t[0]);
        }
        assert(!is_line_break_at(u, 0));
        assert(strip_line_breaks_upto(u, 1) =~= r);
        assert(r + strip_line_breaks_upto(t, 0) =~= r);
    } else {
        lemma_strip_after_first(r, t, k - 1);
        assert(u[k] == t[k - 1]);
        if k < t.len() {
            assert(u[k + 1] == t[k]);
        }
        assert(is_line_break_at(u, k) == is_line_break_at(t, k - 1));
        if !is_line_break_at(t, k - 1) {
            assert(r + strip_line_breaks_upto(t, k - 1).push(t[k - 1]) =~= (r + strip_line_breaks_upto(
                t,
                k - 1,
            )).push(t[k - 1]));
        }
    }
}

/// `text` carries `data` the way a signed file is read back: once its
/// line breaks are removed it decodes to `data`, and it is not empty when
/// `data` is not.
pub open spec fn carries(text: Seq<char>, data: Seq<u8>) -> bool {
    &&& base64_standard_decode(strip_line_breaks(vstd::utf8::encode_utf8(text)))
        == Ok::<Seq<u8>, Seq<char>>(data)
    &&& data.len() > 0 ==> text.len() > 0
}

/// Whether `bytes` starts with the PDF header `%PDF`.
pub open spec fn is_pdf(bytes: Seq<u8>) -> bool {
    &&& bytes.len() >= 4
    &&& bytes[0] == 0x25u8
    &&& bytes[1] == 0x50u8
    &&& bytes[2] == 0x44u8
    &&& bytes[3] == 0x46u8
}

/// The signed PDF carried by a signature file for the document `doc_type`,
/// or the message of the `InvalidSignedDocument` error.
pub open spec fn signed_pdf_result(file: Seq<char>, doc_type: Seq<char>) -> Result<
    Seq<u8>,
    Seq<char>,
> {
    if file.len() == 0 {
        Err("VIDaaS did not return a signed "@ + doc_type + " PDF"@)
    } else {
        match base64_standard_decode(strip_line_breaks(vstd::utf8::encode_utf8(file))) {
            Err(e) => Err("Failed to decode signed "@ + doc_type + " PDF: "@ + e),
            Ok(bytes) => if is_pdf(bytes) {
                Ok(bytes)
            } else {
                Err("VIDaaS returned invalid "@ + doc_type + " PDF"@)
            },
        }
    }
}

/// A PDF sent for signing, read back as a signed file, decodes to itself:
/// the base64 content of a prepared document, returned as the signed file
/// of a PDF, yields that PDF for any document name.
pub proof fn lemma_prepared_pdf_decodes_back(content: Seq<char>, pdf: Seq<u8>, doc_type: Seq<char>)
    requires
        carries(content, pdf),
        is_pdf(pdf),
    ensures
        signed_pdf_result(content, doc_type) == Ok::<Seq<u8>, Seq<char>>(pdf),
{
}

/// The index of the first signature among the first `n` whose id is `id`.
pub open spec fn first_match_upto(sigs: Seq<SignatureResult>, id: Seq<char>, n: int) -> Option<int>
    decreases n,
{
    if n <= 0 {
        None
    } else {
        match first_match_upto(sigs, id, n - 1) {
            Some(k) => Some(k),
            None => if sigs[n - 1].id@ == id {
                Some(n - 1)
            } else {
                None
            },
        }
    }
}

/// The index of the first signature whose id is `id`.
pub open spec fn first_match(sigs: Seq<SignatureResult>, id: Seq<char>) -> Option<int> {
    first_match_upto(sigs, id, sigs.len() as int)
}

/// The variant of a signing-port failure.
#[derive(Debug, Clone, Copy, PartialEq, Eq)]
pub enum FailureKind {
    Provider,
    InvalidDocument,
    Network,
    Authentication,
}

/// `e` is the failure of kind `failure.0` with message `failure.1`.
pub open spec fn is_failure(e: DocumentSigningError, failure: (FailureKind, Seq<char>)) -> bool {
    match e {
        DocumentSigningError::ProviderError(m) => failure.0 == FailureKind::Provider && m@
            == failure.1,
        DocumentSigningError::InvalidSignedDocument(m) => failure.0 == FailureKind::InvalidDocument
            && m@ == failure.1,
        DocumentSigningError::NetworkError(m) => failure.0 == FailureKind::Network && m@
            == failure.1,
        DocumentSigningError::AuthenticationError(m) => failure.0 == FailureKind::Authentication
            && m@ == failure.1,
    }
}

/// The kind of signing-port failure a failed batch request is: a
/// communication failure (no reply, or a server error) is a network
/// failure, a refused authorization an authentication failure, anything
/// else a provider failure.
pub open spec fn request_failure_kind(e: SigningError) -> FailureKind {
    match e {
        SigningError::NetworkError => FailureKind::Network,
        SigningError::Unauthorized => FailureKind::Authentication,
        _ => FailureKind::Provider,
    }
}

/// The signed PDF for the document `id`, from the first signature with
/// that id.
pub open spec fn signed_for(sigs: Seq<SignatureResult>, id: Seq<char>) -> Result<
    Seq<u8>,
    (FailureKind, Seq<char>),
> {
    match first_match(sigs, id) {
        None => Err(
            (
                FailureKind::Provider,
                "VIDaaS response missing signature for document '"@ + id + "'"@,
            ),
        ),
        Some(k) => match signed_pdf_result(sigs[k].file_base64_signed@, id) {
            Ok(bytes) => Ok(bytes),
            Err(m) => Err((FailureKind::InvalidDocument, m)),
        },
    }
}

/// The signed PDFs of the documents `ids`, in order, or the failure of the
/// first document that has none.
pub open spec fn collect_signed(ids: Seq<Seq<char>>, sigs: Seq<SignatureResult>) -> Result<
    Seq<Seq<u8>>,
    (FailureKind, Seq<char>),
>
    decreases ids.len(),
{
    if ids.len() == 0 {
        Ok(Seq::empty())
    } else {
        match collect_signed(ids.drop_last(), sigs) {
            Err(e) => Err(e),
            Ok(prev) => match signed_for(sigs, ids.last()) {
                Err(e) => Err(e),
                Ok(bytes) => Ok(prev.push(bytes)),
            },
        }
    }
}

/// The ids of a list of documents.
pub open spec fn document_ids(documents: Seq<UnsignedDocument>) -> Seq<Seq<char>> {
    documents.map_values(|d: UnsignedDocument| d.id@)
}

/// What signing the documents `ids` yields, given the provider's reply.
pub open spec fn signing_result(
    ids: Seq<Seq<char>>,
    reply: Result<SignatureResponse, SigningError>,
) -> Result<Seq<Seq<u8>>, (FailureKind, Seq<char>)> {
    match reply {
        Err(e) => Err((request_failure_kind(e), e.message())),
        Ok(resp) => if resp.signatures@.len() != ids.len() {
            Err(
                (
                    FailureKind::Provider,
                    "Expected "@ + decimal(ids.len()) + " signatures from VIDaaS, got "@ + decimal(
                        resp.signatures@.len(),
                    ),
                ),
            )
        } else {
            collect_signed(ids, resp.signatures@)
        },
    }
}

/// `signed` are documents with the ids `ids` and the contents `contents`,
/// in this order.
pub open spec fn are_signed_documents(
    signed: Seq<SignedDocument>,
    ids: Seq<Seq<char>>,
    contents: Seq<Seq<u8>>,
) -> bool {
    &&& signed.len() == ids.len()
    &&& contents.len() == ids.len()
    &&& forall|i: int|
        0 <= i < signed.len() ==> (#[trigger] signed[i]).id@ == ids[i]
            && signed[i].signed_pdf_bytes@ == contents[i]
}

proof fn lemma_first_match_stable(sigs: Seq<SignatureResult>, id: Seq<char>, n: int, m: int)
    requires
        0 <= n <= m,
        first_match_upto(sigs, id, n) is Some,
    ensures
        first_match_upto(sigs, id, m) == first_match_upto(sigs, id, n),
    decreases m - n,
{
    if m > n {
        lemma_first_match_stable(sigs, id, n, m - 1);
    }
}

proof fn lemma_first_match_found(sigs: Seq<SignatureResult>, id: Seq<char>, k: int)
    requires
        0 <= k < sigs.len(),
        first_match_upto(sigs, id, k) is None,
        sigs[k].id@ == id,
    ensures
        first_match(sigs, id) == Some(k),
{
    lemma_first_match_stable(sigs, id, k + 1, sigs.len() as int);
}

proof fn lemma_collect_error_stable(ids: Seq<Seq<char>>, sigs: Seq<SignatureResult>, n: int)
    requires
        0 <= n <= ids.len(),
        collect_signed(ids.take(n), sigs) is Err,
    ensures
        collect_signed(ids, sigs) == collect_signed(ids.take(n), sigs),
    decreases ids.len() - n,
{
    if n < ids.len() {
        let m = n + 1;
        assert(ids.take(m).drop_last() =~= ids.take(n));
        lemma_collect_error_stable(ids, sigs, m);
    } else {
        assert(ids.take(n) =~= ids);
    }
}

proof fn lemma_collect_all_pdf(ids: Seq<Seq<char>>, sigs: Seq<SignatureResult>)
    requires
        collect_signed(ids, sigs) is Ok,
    ensures
        collect_signed(ids, sigs)->Ok_0.len() == ids.len(),
        forall|i: int|
            0 <= i < ids.len() ==> is_pdf(#[trigger] collect_signed(ids, sigs)->Ok_0[i]),
    decreases ids.len(),
{
    if ids.len() > 0 {
        lemma_collect_all_pdf(ids.drop_last(), sigs);
    }
}

proof fn lemma_first_match_spec(sigs: Seq<SignatureResult>, id: Seq<char>, n: int)
    requires
        0 <= n <= sigs.len(),
    ensures
        first_match_upto(sigs, id, n) is None <==> forall|j: int|
            0 <= j < n ==> (#[trigger] sigs[j]).id@ != id,
        first_match_upto(sigs, id, n) matches Some(k) ==> 0 <= k < n && sigs[k].id@ == id
            && first_match_upto(sigs, id, k) is None,
    decreases n,
{
    if n > 0 {
        lemma_first_match_spec(sigs, id, n - 1);
    }
}

/// No two signatures of a reply carry the same id.
pub open spec fn unique_ids(sigs: Seq<SignatureResult>) -> bool {
    forall|j: int, k: int|
        0 <= j < sigs.len() && 0 <= k < sigs.len() && (#[trigger] sigs[j]).id@ == (
        #[trigger] sigs[k]).id@ ==> j == k
}

/// Two replies carry the same signatures, possibly in another order.
pub open spec fn same_signatures(a: Seq<SignatureResult>, b: Seq<SignatureResult>) -> bool {
    &&& a.len() == b.len()
    &&& forall|j: int| 0 <= j < a.len() ==> exists|k: int| 0 <= k < b.len() && b[k] == #[trigger] a[j]
    &&& forall|k: int| 0 <= k < b.len() ==> exists|j: int| 0 <= j < a.len() && a[j] == #[trigger] b[k]
}

proof fn lemma_signed_for_order_irrelevant(
    a: Seq<SignatureResult>,
    b: Seq<SignatureResult>,
    id: Seq<char>,
)
    requires
        unique_ids(a),
        unique_ids(b),
        same_signatures(a, b),
    ensures
        signed_for(a, id) == signed_for(b, id),
{
    lemma_first_match_spec(a, id, a.len() as int);
    lemma_first_match_spec(b, id, b.len() as int);
    match first_match(a, id) {
        Some(k) => {
            let m = choose|m: int| 0 <= m < b.len() && b[m] == #[trigger] a[k];
            assert(b[m].id@ == id);
            let m2 = first_match(b, id)->0;
            assert(b[m2].id@ == b[m].id@);
            assert(m2 == m);
        },
        None => {
            if first_match(b, id) is Some {
                let m = first_match(b, id)->0;
                let j = choose|j: int| 0 <= j < a.len() && a[j] == #[trigger] b[m];
                assert(a[j].id@ != id);
            }
        },
    }
}

proof fn lemma_collect_order_irrelevant(
    ids: Seq<Seq<char>>,
    a: Seq<SignatureResult>,
    b: Seq<SignatureResult>,
)
    requires
        unique_ids(a),
        unique_ids(b),
        same_signatures(a, b),
    ensures
        collect_signed(ids, a) == collect_signed(ids, b),
    decreases ids.len(),
{
    if ids.len() > 0 {
        lemma_collect_order_irrelevant(ids.drop_last(), a, b);
        lemma_signed_for_order_irrelevant(a, b, ids.last());
    }
}

/// Signatures are matched to documents by id: when the ids of a reply are
/// unique, the order in which the provider lists its signatures does not
/// change what signing yields.
pub proof fn lemma_signature_order_irrelevant(
    ids: Seq<Seq<char>>,
    a: SignatureResponse,
    b: SignatureResponse,
)
    requires
        unique_ids(a.signatures@),
        unique_ids(b.signatures@),
        same_signatures(a.signatures@, b.signatures@),
    ensures
        signing_result(ids, Ok(a)) == signing_result(ids, Ok(b)),
{
    lemma_collect_order_irrelevant(ids, a.signatures@, b.signatures@);
}

/// Every document that signing yields is a PDF, and there is one per
/// document, in the documents' order.
pub proof fn lemma_signed_contents_are_pdfs(
    ids: Seq<Seq<char>>,
    reply: Result<SignatureResponse, SigningError>,
)
    requires
        signing_result(ids, reply) is Ok,
    ensures
        signing_result(ids, reply)->Ok_0.len() == ids.len(),
        forall|i: int|
            0 <= i < ids.len() ==> is_pdf(#[trigger] signing_result(ids, reply)->Ok_0[i]),
{
    lemma_collect_all_pdf(ids, reply->Ok_0.signatures@);
}

/// A PDF starts with the four bytes `%PDF`, and that is all the check
/// asks: any length from four bytes up passes.
pub proof fn lemma_pdf_is_header_check(bytes: Seq<u8>)
    ensures
        is_pdf(bytes) <==> (bytes.len() >= 4 && bytes.subrange(0, 4) == seq![
            0x25u8,
            0x50u8,
            0x44u8,
            0x46u8,
        ]),
{
    if bytes.len() >= 4 {
        let h = bytes.subrange(0, 4);
        assert(h[0] == bytes[0] && h[1] == bytes[1] && h[2] == bytes[2] && h[3] == bytes[3]);
        if is_pdf(bytes) {
            assert(h =~= seq![0x25u8, 0x50u8, 0x44u8, 0x46u8]);
        }
    }
}

/// A signature is found under the document's exact id: there is none when
/// no signature carries that id, and otherwise it is the first one that
/// does.
pub proof fn lemma_first_match_is_exact(sigs: Seq<SignatureResult>, id: Seq<char>)
    ensures
        first_match(sigs, id) is None <==> forall|j: int|
            0 <= j < sigs.len() ==> (#[trigger] sigs[j]).id@ != id,
        first_match(sigs, id) matches Some(k) ==> {
            &&& 0 <= k < sigs.len()
            &&& sigs[k].id@ == id
            &&& forall|j: int| 0 <= j < k ==> (#[trigger] sigs[j]).id@ != id
        },
{
    lemma_first_match_spec(sigs, id, sigs.len() as int);
    if first_match(sigs, id) is Some {
        let k = first_match(sigs, id)->0;
        lemma_first_match_spec(sigs, id, k);
    }
}

/// Reading a signed file: an empty file is missing; otherwise the file,
/// once its line breaks are removed, is base64-decoded, and the decoded
/// bytes are the signed PDF exactly when they start with `%PDF`.
pub proof fn lemma_signed_file_reading(file: Seq<char>, doc_type: Seq<char>)
    ensures
        file.len() == 0 ==> signed_pdf_result(file, doc_type) == Err::<Seq<u8>, Seq<char>>(
            "VIDaaS did not return a signed "@ + doc_type + " PDF"@,
        ),
        file.len() > 0 ==> match base64_standard_decode(
            strip_line_breaks(vstd::utf8::encode_utf8(file)),
        ) {
            Ok(b) => if b.len() >= 4 && b.subrange(0, 4) == seq![0x25u8, 0x50u8, 0x44u8, 0x46u8] {
                signed_pdf_result(file, doc_type) == Ok::<Seq<u8>, Seq<char>>(b)
            } else {
                signed_pdf_result(file, doc_type) == Err::<Seq<u8>, Seq<char>>(
                    "VIDaaS returned invalid "@ + doc_type + " PDF"@,
                )
            },
            Err(e) => signed_pdf_result(file, doc_type) == Err::<Seq<u8>, Seq<char>>(
                "Failed to decode signed "@ + doc_type + " PDF: "@ + e,
            ),
        },
{
    if file.len() > 0 {
        match base64_standard_decode(strip_line_breaks(vstd::utf8::encode_utf8(file))) {
            Ok(b) => lemma_pdf_is_header_check(b),
            Err(_) => {},
        }
    }
}

/// The signed PDF of a document is read from the first signature that
/// carries the document's exact id; with no such signature it is missing.
pub proof fn lemma_signed_for_exact_id(sigs: Seq<SignatureResult>, id: Seq<char>)
    ensures
        (forall|j: int| 0 <= j < sigs.len() ==> (#[trigger] sigs[j]).id@ != id) ==> signed_for(
            sigs,
            id,
        ) == Err::<Seq<u8>, (FailureKind, Seq<char>)>(
            (
                FailureKind::Provider,
                "VIDaaS response missing signature for document '"@ + id + "'"@,
            ),
        ),
        forall|k: int|
            0 <= k < sigs.len() && (#[trigger] sigs[k]).id@ == id && (forall|j: int|
                0 <= j < k ==> sigs[j].id@ != id) ==> signed_for(sigs, id) == match signed_pdf_result(
                sigs[k].file_base64_signed@,
                id,
            ) {
                Ok(b) => Ok::<Seq<u8>, (FailureKind, Seq<char>)>(b),
                Err(m) => Err::<Seq<u8>, (FailureKind, Seq<char>)>((FailureKind::InvalidDocument, m)),
            },
{
    lemma_first_match_is_exact(sigs, id);
    assert forall|k: int|
        0 <= k < sigs.len() && (#[trigger] sigs[k]).id@ == id && (forall|j: int|
            0 <= j < k ==> sigs[j].id@ != id) implies first_match(sigs, id) == Some(k) by {
        let m = first_match(sigs, id)->0;
        if m < k {
            assert(sigs[m].id@ != id);
        } else if m > k {
            assert(sigs[k].id@ != id);
        }
    }
}

proof fn lemma_collect_ok(ids: Seq<Seq<char>>, sigs: Seq<SignatureResult>)
    ensures
        collect_signed(ids, sigs) is Ok <==> forall|i: int|
            0 <= i < ids.len() ==> signed_for(sigs, #[trigger] ids[i]) is Ok,
        collect_signed(ids, sigs) matches Ok(c) ==> c.len() == ids.len() && forall|i: int|
            0 <= i < ids.len() ==> signed_for(sigs, #[trigger] ids[i]) == Ok::<
                Seq<u8>,
                (FailureKind, Seq<char>),
            >(c[i]),
        collect_signed(ids, sigs) matches Err(e) ==> exists|i: int|
            0 <= i < ids.len() && (forall|k: int|
                0 <= k < i ==> signed_for(sigs, #[trigger] ids[k]) is Ok) && signed_for(sigs, ids[i])
                == Err::<Seq<u8>, (FailureKind, Seq<char>)>(e),
    decreases ids.len(),
{
    if ids.len() > 0 {
        let prev = ids.drop_last();
        lemma_collect_ok(prev, sigs);
        assert forall|i: int| 0 <= i < prev.len() implies prev[i] == ids[i] by {}
        let n = ids.len() - 1;
        if collect_signed(ids, sigs) is Ok {
            assert forall|i: int| 0 <= i < ids.len() implies signed_for(sigs, #[trigger] ids[i]) is Ok by {
                if i < n {
                    assert(signed_for(sigs, prev[i]) is Ok);
                }
            }
        } else {
            if collect_signed(prev, sigs) is Err {
                let e = collect_signed(prev, sigs)->Err_0;
                let i = choose|i: int|
                    0 <= i < prev.len() && (forall|k: int|
                        0 <= k < i ==> signed_for(sigs, #[trigger] prev[k]) is Ok) && signed_for(
                        sigs,
                        prev[i],
                    ) == Err::<Seq<u8>, (FailureKind, Seq<char>)>(e);
                assert(ids[i] == prev[i]);
                assert forall|k: int| 0 <= k < i implies signed_for(sigs, #[trigger] ids[k]) is Ok by {
                    assert(ids[k] == prev[k]);
                }
                assert(!(signed_for(sigs, ids[i]) is Ok));
            } else {
                assert forall|k: int| 0 <= k < n implies signed_for(sigs, #[trigger] ids[k]) is Ok by {
                    assert(ids[k] == prev[k]);
                }
                assert(ids.last() == ids[n]);
            }
        }
    }
}

/// Signing a batch, given the provider's reply: a failed request is a
/// failure of the kind of its cause, with its message; a reply with another
/// number of signatures is a provider failure; otherwise every document's
/// signed PDF is read from its own signature, and the result is the list
/// of them in document order when all are read, or else the failure of the
/// first document that could not be read.
pub proof fn lemma_signing_result_by_document(
    ids: Seq<Seq<char>>,
    reply: Result<SignatureResponse, SigningError>,
)
    ensures
        reply matches Err(e) ==> signing_result(ids, reply) == Err::<
            Seq<Seq<u8>>,
            (FailureKind, Seq<char>),
        >((request_failure_kind(e), e.message())),
        reply matches Ok(resp) ==> (resp.signatures@.len() != ids.len() ==> (signing_result(
            ids,
            reply,
        ) matches Err(f) && f.0 == FailureKind::Provider)),
        reply matches Ok(resp) ==> (resp.signatures@.len() == ids.len() ==> {
            &&& signing_result(ids, reply) is Ok <==> forall|i: int|
                0 <= i < ids.len() ==> signed_for(resp.signatures@, #[trigger] ids[i]) is Ok
            &&& signing_result(ids, reply) matches Ok(c) ==> c.len() == ids.len() && forall|i: int|
                0 <= i < ids.len() ==> signed_for(resp.signatures@, #[trigger] ids[i]) == Ok::<
                    Seq<u8>,
                    (FailureKind, Seq<char>),
                >(c[i])
            &&& signing_result(ids, reply) matches Err(e) ==> exists|i: int|
                0 <= i < ids.len() && (forall|k: int|
                    0 <= k < i ==> signed_for(resp.signatures@, #[trigger] ids[k]) is Ok)
                    && signed_for(resp.signatures@, ids[i]) == Err::<
                    Seq<u8>,
                    (FailureKind, Seq<char>),
                >(e)
        }),
{
    if reply is Ok {
        lemma_collect_ok(ids, reply->Ok_0.signatures@);
    }
}

/// The signature a document is read from: the first one of the reply
/// whose id is the document's exact id.
pub open spec fn is_first_with_id(sigs: Seq<SignatureResult>, id: Seq<char>, j: int) -> bool {
    &&& 0 <= j < sigs.len()
    &&& sigs[j].id@ == id
    &&& forall|k: int| 0 <= k < j ==> (#[trigger] sigs[k]).id@ != id
}

/// `pdf` is read from the first signature of `sigs` whose id is `id`.
pub open spec fn read_from_own_signature(sigs: Seq<SignatureResult>, id: Seq<char>, pdf: Seq<u8>) -> bool {
    exists|j: int|
        is_first_with_id(sigs, id, j) && signed_pdf_result(sigs[j].file_base64_signed@, id) == Ok::<
            Seq<u8>,
            Seq<char>,
        >(pdf)
}

/// What signing yields, in terms of the reply alone: on success, one PDF
/// per document, each read from the first signature carrying the
/// document's id; and when the reply has one signature per document and
/// every document's id is carried by a signature whose file reads as a
/// PDF, signing succeeds.
pub proof fn lemma_signing_pairs_by_exact_id(ids: Seq<Seq<char>>, resp: SignatureResponse)
    ensures
        signing_result(ids, Ok(resp)) matches Ok(c) ==> (c.len() == ids.len() && forall|i: int|
            0 <= i < ids.len() ==> read_from_own_signature(resp.signatures@, #[trigger] ids[i], c[i])),
        (resp.signatures@.len() == ids.len() && forall|i: int|
            0 <= i < ids.len() ==> (exists|j: int|
                0 <= j < resp.signatures@.len() && resp.signatures@[j].id@ == #[trigger] ids[i])
                && forall|j: int|
                is_first_with_id(resp.signatures@, ids[i], j) ==> signed_pdf_result(
                    resp.signatures@[j].file_base64_signed@,
                    ids[i],
                ) is Ok) ==> signing_result(ids, Ok(resp)) is Ok,
{
    let sigs = resp.signatures@;
    let reply = Ok::<SignatureResponse, SigningError>(resp);
    lemma_signing_result_by_document(ids, reply);
    assert forall|i: int| 0 <= i < ids.len() implies {
        &&& (forall|j: int| 0 <= j < sigs.len() ==> (#[trigger] sigs[j]).id@ != ids[i]) ==> signed_for(
            sigs,
            ids[i],
        ) is Err
        &&& forall|j: int|
            #[trigger] is_first_with_id(sigs, ids[i], j) ==> signed_for(sigs, ids[i]) == match signed_pdf_result(
                sigs[j].file_base64_signed@,
                ids[i],
            ) {
                Ok(b) => Ok::<Seq<u8>, (FailureKind, Seq<char>)>(b),
                Err(m) => Err::<Seq<u8>, (FailureKind, Seq<char>)>((FailureKind::InvalidDocument, m)),
            }
        &&& signed_for(sigs, ids[i]) is Ok ==> is_first_with_id(sigs, ids[i], first_match(sigs, ids[i])->0)
    } by {
        lemma_signed_for_exact_id(sigs, ids[i]);
        lemma_first_match_is_exact(sigs, ids[i]);
        assert forall|j: int| #[trigger] is_first_with_id(sigs, ids[i], j) implies sigs[j] == sigs[j] by {}
    }
    if signing_result(ids, reply) is Ok {
        let c = signing_result(ids, reply)->Ok_0;
        assert forall|i: int| 0 <= i < ids.len() implies read_from_own_signature(
            sigs,
            #[trigger] ids[i],
            c[i],
        ) by {
            assert(sigs.len() == ids.len());
            assert(signed_for(sigs, ids[i]) == Ok::<Seq<u8>, (FailureKind, Seq<char>)>(c[i]));
            lemma_signed_for_exact_id(sigs, ids[i]);
            lemma_first_match_is_exact(sigs, ids[i]);
            let j = first_match(sigs, ids[i])->0;
            assert(is_first_with_id(sigs, ids[i], j));
            assert(signed_pdf_result(sigs[j].file_base64_signed@, ids[i]) == Ok::<Seq<u8>, Seq<char>>(c[i]));
        }
        assert(c.len() == ids.len());
    }
    if sigs.len() == ids.len() && forall|i: int|
        0 <= i < ids.len() ==> (exists|j: int| 0 <= j < sigs.len() && sigs[j].id@ == #[trigger] ids[i])
            && forall|j: int|
            is_first_with_id(sigs, ids[i], j) ==> signed_pdf_result(
                sigs[j].file_base64_signed@,
                ids[i],
            ) is Ok {
        assert forall|i: int| 0 <= i < ids.len() implies signed_for(sigs, #[trigger] ids[i]) is Ok by {
            lemma_first_match_is_exact(sigs, ids[i]);
            let j = first_match(sigs, ids[i])->0;
            assert(is_first_with_id(sigs, ids[i], j));
        }
    }
}

/// The hash of a prepared document is the base64 SHA-256 of its whole PDF,
/// and its content the base64 of its whole PDF.
pub proof fn lemma_prepared_hash_covers_whole_pdf(doc: UnsignedDocument, out: DocumentForSignature)
    requires
        is_prepared(doc, out),
    ensures
        out.hash@ == base64_standard_encode(sha256(doc.pdf_bytes@)),
        out.base64_content@ == base64_standard_encode(doc.pdf_bytes@),
        out.id@ == doc.id@,
        out.alias@ == doc.alias@,
        out.hash_algorithm@ == "2.16.840.1.101.3.4.2.1"@,
        out.signature_format@ == "PAdES_AD_RB"@,
        out.pdf_signature_page == Some(false),
{
}

/// A failed batch request is a network failure when the provider could not
/// be reached (or answered with a server error), an authentication failure
/// when it refused the credentials, and a provider failure otherwise.
pub proof fn lemma_request_failure_kinds(m: String)
    ensures
        request_failure_kind(SigningError::NetworkError) == FailureKind::Network,
        request_failure_kind(SigningError::Unauthorized) == FailureKind::Authentication,
        request_failure_kind(SigningError::BadRequest(m)) == FailureKind::Provider,
        request_failure_kind(SigningError::ValidationError(m)) == FailureKind::Provider,
        request_failure_kind(SigningError::ConfigError(m)) == FailureKind::Provider,
{
}

/// Removes the line breaks from the bytes of a text: every `\n`, and
/// every `\r` just before a `\n`.
pub fn strip_line_breaks_bytes(s: &[u8]) -> (out: Vec<u8>)
    ensures
        out@ == strip_line_breaks(s@),
{
    let n = s.len();
    let mut out: Vec<u8> = Vec::new();
    let mut i: usize = 0;
    while i < n
        invariant
            n == s@.len(),
            i <= n,
            out@ == strip_line_breaks_upto(s@, i as int),
        decreases n - i,
    {
        let b = s[i];
        let drop = b == 10u8 || (b == 13u8 && i + 1 < n && s[i + 1] == 10u8);
        if !drop {
            out.push(b);
        }
        i = i + 1;
    }
    out
}

/// What signing a list of documents does first: either it is already
/// done, or a batch is to be sent to the provider.
pub enum SigningStep {
    Done(Result<Vec<SignedDocument>, DocumentSigningError>),
    Send(Vec<DocumentForSignature>),
}

/// Signs PDFs through a VIDaaS client of type `C`.
pub struct VidaasSigningAdapter<C> {
    client: C,
}

impl<C> VidaasSigningAdapter<C> {
    /// An adapter that signs through `client`.
    pub fn new(client: C) -> (adapter: Self)
        ensures
            adapter.client() == client,
    {
        VidaasSigningAdapter { client }
    }

    /// The client this adapter signs through.
    pub closed spec fn client(&self) -> C {
        self.client
    }

    /// The client this adapter signs through.
    pub fn get_client(&self) -> (client: &C)
        ensures
            *client == self.client(),
    {
        &self.client
    }

    /// The provider name, for audit trails.
    pub fn provider_name(&self) -> (name: &'static str)
        ensures
            name@ == PROVIDER_NAME@,
    {
        PROVIDER_NAME
    }

    /// The signature request for one document: its SHA-256 hash and its
    /// content in base64, with the SHA-256 OID, the PAdES format and no
    /// signature page.
    pub fn prepare_document(doc: &UnsignedDocument) -> (out: DocumentForSignature)
        requires
            encodable(*doc),
        ensures
            is_prepared(*doc, out),
            out.hash@ == base64_standard_encode(sha256(doc.pdf_bytes@)),
            out.base64_content@ == base64_standard_encode(doc.pdf_bytes@),
            carries(out.base64_content@, doc.pdf_bytes@),
    {
        let digest = sha256_digest(doc.pdf_bytes.as_slice());
        let hash = encode_base64_standard(digest.as_slice());
        let content = encode_base64_standard(doc.pdf_bytes.as_slice());
        proof {
            let chars = content@;
            assert(vstd::utf8::is_ascii_chars(chars)) by {
                assert forall|i: int| 0 <= i < chars.len() implies '\0' <= #[trigger] chars[i]
                    <= '\u{7f}' by {
                    assert(is_standard_base64_char(chars[i]));
                }
            }
            vstd::utf8::is_ascii_chars_encode_utf8(chars);
            let bytes = vstd::utf8::encode_utf8(chars);
            assert forall|i: int| 0 <= i < bytes.len() implies #[trigger] bytes[i] != 10u8
                && bytes[i] != 13u8 by {
                assert(is_standard_base64_char(chars[i]));
                assert(chars[i] as u8 == bytes[i]);
            }
            lemma_strip_line_breaks_identity(bytes);
        }
        DocumentForSignature {
            id: doc.id.clone(),
            alias: doc.alias.clone(),
            hash,
            hash_algorithm: String::from_str(SHA256_OID),
            signature_format: String::from_str(SIGNATURE_FORMAT),
            base64_content: content,
            pdf_signature_page: Some(false),
        }
    }

    /// The first step of signing `documents`: with nothing to sign the
    /// result is an empty list and no request is made; otherwise the batch
    /// to send, in the documents' order.
    pub fn signing_request(documents: &Vec<UnsignedDocument>) -> (step: SigningStep)
        requires
            forall|i: int| 0 <= i < documents@.len() ==> encodable(#[trigger] documents@[i]),
        ensures
            step is Done <==> documents@.len() == 0,
            step matches SigningStep::Done(result) ==> (result matches Ok(v) && v@.len() == 0),
            step matches SigningStep::Send(b) ==> b@.len() == documents@.len() && forall|i: int|
                0 <= i < b@.len() ==> is_prepared(documents@[i], #[trigger] b@[i]),
    {
        if documents.len() == 0 {
            return SigningStep::Done(Ok(Vec::new()));
        }
        let mut batch: Vec<DocumentForSignature> = Vec::new();
        let mut i: usize = 0;
        while i < documents.len()
            invariant
                i <= documents@.len(),
                forall|j: int| 0 <= j < documents@.len() ==> encodable(#[trigger] documents@[j]),
                batch@.len() == i,
                forall|j: int| 0 <= j < i ==> is_prepared(documents@[j], #[trigger] batch@[j]),
            decreases documents@.len() - i,
        {
            batch.push(Self::prepare_document(&documents[i]));
            i = i + 1;
        }
        SigningStep::Send(batch)
    }

    /// The signed PDF of the document `doc_type` from the result of
    /// decoding its signature file: a decode failure, and bytes that do not
    /// start with `%PDF`, are invalid signed documents.
    pub fn validate_signed_pdf(decoded: Result<Vec<u8>, String>, doc_type: &str) -> (r: Result<
        Vec<u8>,
        DocumentSigningError,
    >)
        ensures
            decoded matches Err(e) ==> (r matches Err(
                DocumentSigningError::InvalidSignedDocument(m),
            ) && m@ == "Failed to decode signed "@ + doc_type@ + " PDF: "@ + e@),
            decoded matches Ok(bytes) ==> (is_pdf(bytes@) ==> r == Ok::<
                Vec<u8>,
                DocumentSigningError,
            >(bytes)),
            decoded matches Ok(bytes) ==> (!is_pdf(bytes@) ==> (r matches Err(
                DocumentSigningError::InvalidSignedDocument(m),
            ) && m@ == "VIDaaS returned invalid "@ + doc_type@ + " PDF"@)),
            decoded matches Ok(bytes) ==> (bytes@.len() >= 4 && bytes@.subrange(0, 4) == seq![
                0x25u8,
                0x50u8,
                0x44u8,
                0x46u8,
            ] <==> r is Ok),
    {
        match decoded {
            Err(e) => {
                let mut msg = concat3("Failed to decode signed ", doc_type, " PDF: ");
                msg.append(e.as_str());
                Err(DocumentSigningError::InvalidSignedDocument(msg))
            },
            Ok(bytes) => {
                proof {
                    lemma_pdf_is_header_check(bytes@);
                }
                if bytes.len() < 4 || bytes[0] != 0x25u8 || bytes[1] != 0x50u8 || bytes[2] != 0x44u8
                    || bytes[3] != 0x46u8 {
                    Err(
                        DocumentSigningError::InvalidSignedDocument(
                            concat3("VIDaaS returned invalid ", doc_type, " PDF"),
                        ),
                    )
                } else {
                    Ok(bytes)
                }
            },
        }
    }

    /// Decodes and validates the signed PDF of a signature, for the
    /// document `doc_type`: an empty file is invalid; otherwise the file,
    /// without line breaks, is base64-decoded and validated.
    pub fn decode_signed_pdf(signature: &SignatureResult, doc_type: &str) -> (r: Result<
        Vec<u8>,
        DocumentSigningError,
    >)
        ensures
            match (r, signed_pdf_result(signature.file_base64_signed@, doc_type@)) {
                (Ok(bytes), Ok(expected)) => bytes@ == expected,
                (Err(DocumentSigningError::InvalidSignedDocument(m)), Err(expected)) => m@
                    == expected,
                _ => false,
            },
    {
        if signature.file_base64_signed.as_str().is_empty() {
            return Err(
                DocumentSigningError::InvalidSignedDocument(
                    concat3("VIDaaS did not return a signed ", doc_type, " PDF"),
                ),
            );
        }
        let cleaned = strip_line_breaks_bytes(signature.file_base64_signed.as_str().as_bytes());
        Self::validate_signed_pdf(decode_base64_standard(cleaned.as_slice()), doc_type)
    }

    /// The index of the first signature whose id is `id`.
    fn find_signature(signatures: &Vec<SignatureResult>, id: &str) -> (r: Option<usize>)
        ensures
            match (r, first_match(signatures@, id@)) {
                (Some(k), Some(j)) => k == j && k < signatures@.len(),
                (None, None) => true,
                _ => false,
            },
    {
        let mut j: usize = 0;
        while j < signatures.len()
            invariant
                j <= signatures@.len(),
                first_match_upto(signatures@, id@, j as int) is None,
            decreases signatures@.len() - j,
        {
            if str_eq(signatures[j].id.as_str(), id) {
                proof {
                    lemma_first_match_found(signatures@, id@, j as int);
                }
                return Some(j);
            }
            j = j + 1;
        }
        None
    }

    /// The signed documents for `documents` from the provider's reply to
    /// their batch: one per document, in the same order, matched by id. A
    /// failed request (a network failure when the provider could not be
    /// reached or answered with a server error), a reply with another
    /// number of signatures, a document without a signature, and a signed
    /// file that does not decode to a PDF are errors.
    pub fn signing_outcome(
        documents: &Vec<UnsignedDocument>,
        reply: Result<SignatureResponse, SigningError>,
    ) -> (r: Result<Vec<SignedDocument>, DocumentSigningError>)
        ensures
            match (r, signing_result(document_ids(documents@), reply)) {
                (Ok(signed), Ok(contents)) => are_signed_documents(
                    signed@,
                    document_ids(documents@),
                    contents,
                ),
                (Err(e), Err(failure)) => is_failure(e, failure),
                _ => false,
            },
            r matches Ok(signed) ==> forall|i: int|
                0 <= i < signed@.len() ==> is_pdf((#[trigger] signed@[i]).signed_pdf_bytes@),
            r matches Ok(signed) ==> (reply is Ok && signed@.len() == documents@.len() && forall|i: int|
                0 <= i < signed@.len() ==> (#[trigger] signed@[i]).id@ == documents@[i].id@
                    && read_from_own_signature(
                    reply->Ok_0.signatures@,
                    documents@[i].id@,
                    signed@[i].signed_pdf_bytes@,
                )),
            reply matches Ok(resp) ==> (resp.signatures@.len() == documents@.len() && (forall|i: int|
                0 <= i < documents@.len() ==> (exists|j: int|
                    0 <= j < resp.signatures@.len() && resp.signatures@[j].id@ == (
                    #[trigger] documents@[i]).id@) && forall|j: int|
                    is_first_with_id(resp.signatures@, documents@[i].id@, j) ==> signed_pdf_result(
                        resp.signatures@[j].file_base64_signed@,
                        documents@[i].id@,
                    ) is Ok) ==> r is Ok),
    {
        let ghost ids = document_ids(documents@);
        proof {
            if reply is Ok {
                lemma_signing_pairs_by_exact_id(ids, reply->Ok_0);
                assert forall|i: int| 0 <= i < documents@.len() implies ids[i] == (
                #[trigger] documents@[i]).id@ by {}
            }
        }
        let resp = match reply {
            Err(e) => {
                let msg = e.to_string();
                return Err(
                    match e {
                        SigningError::NetworkError => DocumentSigningError::NetworkError(msg),
                        SigningError::Unauthorized => DocumentSigningError::AuthenticationError(msg),
                        _ => DocumentSigningError::ProviderError(msg),
                    },
                );
            },
            Ok(resp) => resp,
        };
        let n = documents.len();
        let m = resp.signatures.len();
        if m != n {
            let mut msg = String::from_str("Expected ");
            push_decimal(&mut msg, n as u64);
            msg.append(" signatures from VIDaaS, got ");
            push_decimal(&mut msg, m as u64);
            return Err(DocumentSigningError::ProviderError(msg));
        }
        let ghost sigs = resp.signatures@;
        let mut signed: Vec<SignedDocument> = Vec::new();
        let ghost mut contents: Seq<Seq<u8>> = Seq::empty();
        let mut i: usize = 0;
        assert(ids.take(0) =~= Seq::<Seq<char>>::empty());
        while i < n
            invariant
                n == documents@.len(),
                ids == document_ids(documents@),
                sigs == resp.signatures@,
                sigs.len() == n,
                signing_result(ids, reply) == collect_signed(ids, sigs),
                reply == Ok::<SignatureResponse, SigningError>(resp),
                i <= n,
                collect_signed(ids.take(i as int), sigs) == Ok::<
                    Seq<Seq<u8>>,
                    (FailureKind, Seq<char>),
                >(contents),
                are_signed_documents(signed@, ids.take(i as int), contents),
            decreases n - i,
        {
            let doc = &documents[i];
            assert(ids.take(i + 1).drop_last() =~= ids.take(i as int));
            assert(ids.take(i + 1).last() == doc.id@);
            match Self::find_signature(&resp.signatures, doc.id.as_str()) {
                None => {
                    let msg = concat3(
                        "VIDaaS response missing signature for document '",
                        doc.id.as_str(),
                        "'",
                    );
                    proof {
                        assert(collect_signed(ids.take(i + 1), sigs) == Err::<
                            Seq<Seq<u8>>,
                            (FailureKind, Seq<char>),
                        >((FailureKind::Provider, msg@)));
                        lemma_collect_error_stable(ids, sigs, i + 1);
                        lemma_signing_pairs_by_exact_id(ids, resp);
                        assert forall|t: int| 0 <= t < documents@.len() implies ids[t] == (
                        #[trigger] documents@[t]).id@ by {}
                    }
                    return Err(DocumentSigningError::ProviderError(msg));
                },
                Some(k) => {
                    match Self::decode_signed_pdf(&resp.signatures[k], doc.id.as_str()) {
                        Err(e) => {
                            proof {
                                let m = signed_pdf_result(sigs[k as int].file_base64_signed@, doc.id@)->Err_0;
                                assert(signed_for(sigs, doc.id@) == Err::<Seq<u8>, (FailureKind, Seq<char>)>((FailureKind::InvalidDocument, m)));
                                assert(collect_signed(ids.take(i + 1), sigs) == Err::<
                                    Seq<Seq<u8>>,
                                    (FailureKind, Seq<char>),
                                >((FailureKind::InvalidDocument, m)));
                                lemma_collect_error_stable(ids, sigs, i + 1);
                                lemma_signing_pairs_by_exact_id(ids, resp);
                                assert forall|t: int| 0 <= t < documents@.len() implies ids[t] == (
                                #[trigger] documents@[t]).id@ by {}
                            }
                            return Err(e);
                        },
                        Ok(bytes) => {
                            proof {
                                contents = contents.push(bytes@);
                            }
                            signed.push(SignedDocument { id: doc.id.clone(), signed_pdf_bytes: bytes });
                        },
                    }
                },
            }
            i = i + 1;
        }
        proof {
            assert(ids.take(n as int) =~= ids);
            lemma_collect_all_pdf(ids, sigs);
        }
        Ok(signed)
    }
}

} // verus!
