//! The VIDaaS HTTP protocol: the endpoints the client calls, the bodies it
//! exchanges, and how each reply is turned into a result.
//!
//! The transport (sending a request and reading the status and body of the
//! reply) is not part of this crate: the caller performs it and hands the
//! plain results to the functions here. A body that could not be read or
//! parsed is handed over as `None`.

use vstd::prelude::*;
use vstd::string::StringSliceAdditionalSpecFns;

use crate::config::VidaasConfig;
use crate::error::SigningError;
use crate::codec::{base64_url_nopad_encode, sha256};
use crate::pkce::{generate_pkce_challenge, pkce_challenge};
use crate::text::{concat2, concat3, decimal, push_decimal, str_eq};

verus! {

/// Whether an HTTP status is in the success class (2xx).
pub open spec fn is_success(status: u16) -> bool {
    200 <= status && status <= 299
}

/// Reply of the authorization poll (`authorizationToken`, `redirectUrl`).
#[derive(Debug, Clone)]
pub struct PollAuthResponse {
    pub authorization_token: Option<String>,
    pub redirect_url: Option<String>,
}

/// One document of a batch signature request.
#[derive(Debug, Clone)]
pub struct DocumentForSignature {
    pub id: String,
    pub alias: String,
    pub hash: String,
    pub hash_algorithm: String,
    pub signature_format: String,
    pub base64_content: String,
    pub pdf_signature_page: Option<bool>,
}

/// Reply of a batch signature request.
#[derive(Debug, Clone)]
pub struct SignatureResponse {
    pub signatures: Vec<SignatureResult>,
    pub certificate_alias: String,
}

/// One signature of a batch reply; `file_base64_signed` is empty when the
/// provider returned no signed file.
#[derive(Debug, Clone)]
pub struct SignatureResult {
    pub id: String,
    pub raw_signature: String,
    pub file_base64_signed: String,
}

/// The path of the client-credentials token endpoint.
pub const CLIENT_TOKEN_PATH: &'static str = "/v0/oauth/client_token";

/// The path of the user-discovery endpoint.
pub const USER_DISCOVERY_PATH: &'static str = "/v0/oauth/user-discovery";

/// The path of the authorization-code exchange endpoint.
pub const TOKEN_PATH: &'static str = "/v0/oauth/token";

/// The path of the batch signature endpoint.
pub const SIGNATURES_PATH: &'static str = "/v0/oauth/signatures";

/// The URL of the client-credentials token endpoint.
pub fn client_token_url(config: &VidaasConfig) -> (url: String)
    ensures
        url@ == config.base_url@ + CLIENT_TOKEN_PATH@,
{
    concat2(config.base_url.as_str(), CLIENT_TOKEN_PATH)
}

/// The URL of the user-discovery endpoint.
pub fn user_discovery_url(config: &VidaasConfig) -> (url: String)
    ensures
        url@ == config.base_url@ + USER_DISCOVERY_PATH@,
{
    concat2(config.base_url.as_str(), USER_DISCOVERY_PATH)
}

/// The URL of the authorization-code exchange endpoint.
pub fn token_url(config: &VidaasConfig) -> (url: String)
    ensures
        url@ == config.base_url@ + TOKEN_PATH@,
{
    concat2(config.base_url.as_str(), TOKEN_PATH)
}

/// The URL of the batch signature endpoint.
pub fn signatures_url(config: &VidaasConfig) -> (url: String)
    ensures
        url@ == config.base_url@ + SIGNATURES_PATH@,
{
    concat2(config.base_url.as_str(), SIGNATURES_PATH)
}

/// The push-authorization URL: a PKCE S256 request with `push://` as
/// redirect, the signature-session scope, a lifetime of seven days, and the
/// user's CPF as login hint.
pub open spec fn spec_push_authorization_url(
    base_url: Seq<char>,
    client_id: Seq<char>,
    challenge: Seq<char>,
    login_hint: Seq<char>,
) -> Seq<char> {
    base_url + "/v0/oauth/authorize?client_id="@ + client_id + "&code_challenge="@ + challenge
        + "&code_challenge_method=S256&response_type=code&redirect_uri=push://&scope=signature_session&lifetime=604800&login_hint="@
        + login_hint
}

/// Where the challenge starts in the authorize URL: after the base URL, the
/// authorize path with the client id, and `&code_challenge=`.
pub open spec fn challenge_offset(base_url: Seq<char>, client_id: Seq<char>) -> int {
    (base_url.len() + "/v0/oauth/authorize?client_id="@.len() + client_id.len()
        + "&code_challenge="@.len()) as int
}

/// The authorize URL carries the challenge verbatim: it starts with the
/// base URL, the authorize path with the client id and `&code_challenge=`;
/// then comes exactly the challenge, followed by
/// `&code_challenge_method=S256`; and it ends with the login hint.
pub proof fn lemma_push_url_carries_challenge(
    base_url: Seq<char>,
    client_id: Seq<char>,
    challenge: Seq<char>,
    login_hint: Seq<char>,
)
    ensures
        ({
            let url = spec_push_authorization_url(base_url, client_id, challenge, login_hint);
            let p = challenge_offset(base_url, client_id);
            &&& url.subrange(0, p) == base_url + "/v0/oauth/authorize?client_id="@ + client_id
                + "&code_challenge="@
            &&& url.subrange(p, p + challenge.len()) == challenge
            &&& url.subrange(
                p + challenge.len(),
                p + challenge.len() + "&code_challenge_method=S256"@.len(),
            ) == "&code_challenge_method=S256"@
            &&& url.subrange(url.len() - login_hint.len(), url.len() as int) == login_hint
        }),
{
    reveal_strlit("&code_challenge_method=S256");
    reveal_strlit(
        "&code_challenge_method=S256&response_type=code&redirect_uri=push://&scope=signature_session&lifetime=604800&login_hint=",
    );
    let head = base_url + "/v0/oauth/authorize?client_id="@ + client_id + "&code_challenge="@;
    let tail = "&code_challenge_method=S256&response_type=code&redirect_uri=push://&scope=signature_session&lifetime=604800&login_hint="@;
    let url = spec_push_authorization_url(base_url, client_id, challenge, login_hint);
    assert(url == head + challenge + tail + login_hint);
    let p = challenge_offset(base_url, client_id);
    assert(head.len() == p);
    assert(url.subrange(0, p) =~= head);
    assert(url.subrange(p, p + challenge.len()) =~= challenge);
    assert(url.subrange(p + challenge.len(), p + challenge.len() + 27) =~= tail.subrange(0, 27));
    assert(tail.subrange(0, 27) =~= "&code_challenge_method=S256"@);
    assert(url.subrange(url.len() - login_hint.len(), url.len() as int) =~= login_hint);
}

/// Builds the push-authorization URL.
pub fn push_authorization_url(config: &VidaasConfig, challenge: &str, login_hint: &str) -> (url:
    String)
    ensures
        url@ == spec_push_authorization_url(
            config.base_url@,
            config.client_id@,
            challenge@,
            login_hint@,
        ),
{
    let mut url = concat3(config.base_url.as_str(), "/v0/oauth/authorize?client_id=", config.client_id.as_str());
    url.append("&code_challenge=");
    url.append(challenge);
    url.append("&code_challenge_method=S256&response_type=code&redirect_uri=push://&scope=signature_session&lifetime=604800&login_hint=");
    url.append(login_hint);
    url
}

/// The poll URL of an authorization code.
pub open spec fn spec_poll_url(base_url: Seq<char>, code: Seq<char>) -> Seq<char> {
    base_url + "/valid/api/v1/trusted-services/authentications?code="@ + code
}

/// Builds the poll URL of an authorization code.
pub fn poll_url(config: &VidaasConfig, code: &str) -> (url: String)
    ensures
        url@ == spec_poll_url(config.base_url@, code@),
{
    concat3(config.base_url.as_str(), "/valid/api/v1/trusted-services/authentications?code=", code)
}

/// Whether an HTTP status is a server error (5xx). A server error, like a
/// request that never got a reply, is a failure to communicate with the
/// provider (`NetworkError`), whatever the endpoint.
pub open spec fn is_server_error(status: u16) -> bool {
    500 <= status && status <= 599
}

/// The displayed HTTP status: the code, a space, and its canonical reason
/// phrase (`reason`, when the status has one).
pub open spec fn spec_status_line(status: u16, reason: Option<Seq<char>>) -> Seq<char> {
    decimal(status as nat) + " "@ + match reason {
        Some(r) => r,
        None => "<unknown status code>"@,
    }
}

/// The status classes are the HTTP ones: 2xx succeeds, 5xx is a server
/// error; the VIDaaS endpoints are the documented paths; a failed
/// signature reply quotes its body below 100 bytes.
pub proof fn lemma_protocol_constants(status: u16)
    ensures
        is_success(status) <==> 200 <= status < 300,
        is_server_error(status) <==> 500 <= status < 600,
        CLIENT_TOKEN_PATH@ == "/v0/oauth/client_token"@,
        USER_DISCOVERY_PATH@ == "/v0/oauth/user-discovery"@,
        TOKEN_PATH@ == "/v0/oauth/token"@,
        SIGNATURES_PATH@ == "/v0/oauth/signatures"@,
        CODE_PREFIX@ == "code="@,
        ERROR_BODY_QUOTE_LIMIT == 100,
{
}

/// Builds the displayed HTTP status from its code and reason phrase.
pub fn status_line(status: u16, reason: Option<&str>) -> (line: String)
    ensures
        line@ == spec_status_line(status, match reason {
            Some(r) => Some(r@),
            None => None,
        }),
{
    let mut line = String::new();
    push_decimal(&mut line, status as u64);
    line.append(" ");
    match reason {
        Some(r) => line.append(r),
        None => line.append("<unknown status code>"),
    }
    line
}

/// The view of an optional string slice.
pub open spec fn opt_view(reason: Option<&str>) -> Option<Seq<char>> {
    match reason {
        Some(r) => Some(r@),
        None => None,
    }
}

/// The view of a list of form fields.
pub open spec fn form_view(form: Seq<(String, String)>) -> Seq<(Seq<char>, Seq<char>)> {
    form.map_values(|f: (String, String)| (f.0@, f.1@))
}

/// A form field.
fn field(name: &str, value: &str) -> (f: (String, String))
    ensures
        f.0@ == name@,
        f.1@ == value@,
{
    (String::from_str(name), String::from_str(value))
}

/// The form of the client-credentials token request.
pub fn client_token_form(config: &VidaasConfig) -> (form: Vec<(String, String)>)
    ensures
        form_view(form@) == seq![
            ("grant_type"@, "client_credentials"@),
            ("client_id"@, config.client_id@),
            ("client_secret"@, config.client_secret@),
        ],
{
    let form = vec![
        field("grant_type", "client_credentials"),
        field("client_id", config.client_id.as_str()),
        field("client_secret", config.client_secret.as_str()),
    ];
    assert(form_view(form@) =~= seq![
        ("grant_type"@, "client_credentials"@),
        ("client_id"@, config.client_id@),
        ("client_secret"@, config.client_secret@),
    ]);
    form
}

/// The form of the authorization-code exchange: the code (the
/// authorization token returned by the poll) and the PKCE verifier, with
/// the client credentials.
pub fn exchange_form(config: &VidaasConfig, code: &str, verifier: &str) -> (form: Vec<
    (String, String),
>)
    ensures
        form_view(form@) == seq![
            ("grant_type"@, "authorization_code"@),
            ("code"@, code@),
            ("code_verifier"@, verifier@),
            ("client_id"@, config.client_id@),
            ("client_secret"@, config.client_secret@),
        ],
{
    let form = vec![
        field("grant_type", "authorization_code"),
        field("code", code),
        field("code_verifier", verifier),
        field("client_id", config.client_id.as_str()),
        field("client_secret", config.client_secret.as_str()),
    ];
    assert(form_view(form@) =~= seq![
        ("grant_type"@, "authorization_code"@),
        ("code"@, code@),
        ("code_verifier"@, verifier@),
        ("client_id"@, config.client_id@),
        ("client_secret"@, config.client_secret@),
    ]);
    form
}

/// Body of the user-discovery request.
#[derive(Debug, Clone)]
pub struct UserDiscoveryRequest {
    pub client_id: String,
    pub client_secret: String,
    pub user_cpf_cnpj: String,
    pub val_cpf_cnpj: bool,
}

/// The user-discovery request for a CPF/CNPJ, asking the provider to
/// validate it.
pub fn user_discovery_request(config: &VidaasConfig, cpf: &str) -> (req: UserDiscoveryRequest)
    ensures
        req.client_id@ == config.client_id@,
        req.client_secret@ == config.client_secret@,
        req.user_cpf_cnpj@ == cpf@,
        req.val_cpf_cnpj,
{
    UserDiscoveryRequest {
        client_id: config.client_id.clone(),
        client_secret: config.client_secret.clone(),
        user_cpf_cnpj: String::from_str(cpf),
        val_cpf_cnpj: true,
    }
}

/// The push-authorization URL for a verifier: only its S256 challenge is
/// sent, never the verifier itself.
pub fn push_authorization_request_url(config: &VidaasConfig, verifier: &str, login_hint: &str) -> (url:
    String)
    ensures
        url@ == spec_push_authorization_url(
            config.base_url@,
            config.client_id@,
            pkce_challenge(verifier.spec_bytes()),
            login_hint@,
        ),
        ({
            let ch = base64_url_nopad_encode(sha256(verifier.spec_bytes()));
            let p = challenge_offset(config.base_url@, config.client_id@);
            url@.subrange(p, p + ch.len()) == ch
        }),
{
    let challenge = generate_pkce_challenge(verifier);
    proof {
        lemma_push_url_carries_challenge(
            config.base_url@,
            config.client_id@,
            challenge@,
            login_hint@,
        );
    }
    push_authorization_url(config, challenge.as_str(), login_hint)
}

/// The result of the client-credentials token request, from the status of
/// the reply and the `access_token` it carried (`None` if the body could
/// not be parsed). A server error is `NetworkError`; any other non-success
/// status is `Unauthorized`.
pub fn client_token_outcome(status: u16, access_token: Option<String>) -> (r: Result<
    String,
    SigningError,
>)
    ensures
        is_server_error(status) ==> r == Err::<String, SigningError>(SigningError::NetworkError),
        !is_success(status) && !is_server_error(status) ==> r == Err::<String, SigningError>(
            SigningError::Unauthorized,
        ),
        is_success(status) && access_token is None ==> (r matches Err(
            SigningError::BadRequest(m),
        ) && m@ == "Invalid token response format"@),
        is_success(status) && access_token is Some ==> r == Ok::<String, SigningError>(
            access_token->0,
        ),
{
    if 500 <= status && status <= 599 {
        return Err(SigningError::NetworkError);
    }
    if !(200 <= status && status <= 299) {
        return Err(SigningError::Unauthorized);
    }
    match access_token {
        Some(t) => Ok(t),
        None => Err(SigningError::BadRequest(String::from_str("Invalid token response format"))),
    }
}

/// The result of the user-discovery request: whether the CPF/CNPJ is
/// enabled (`status == "Y"`). `reason` is the status's reason phrase.
pub fn discovery_outcome(status: u16, reason: Option<&str>, user_status: Option<String>) -> (r:
    Result<bool, SigningError>)
    ensures
        is_server_error(status) ==> r == Err::<bool, SigningError>(SigningError::NetworkError),
        !is_success(status) && !is_server_error(status) ==> (r matches Err(
            SigningError::BadRequest(m),
        ) && m@ == "User discovery failed: "@ + spec_status_line(status, opt_view(reason))),
        is_success(status) && user_status is None ==> (r matches Err(
            SigningError::BadRequest(m),
        ) && m@ == "Invalid response format"@),
        is_success(status) && user_status is Some ==> r == Ok::<bool, SigningError>(
            user_status->0@ == "Y"@,
        ),
{
    if 500 <= status && status <= 599 {
        return Err(SigningError::NetworkError);
    }
    if !(200 <= status && status <= 299) {
        let line = status_line(status, reason);
        return Err(SigningError::BadRequest(concat2("User discovery failed: ", line.as_str())));
    }
    match user_status {
        Some(s) => Ok(str_eq(s.as_str(), "Y")),
        None => Err(SigningError::BadRequest(String::from_str("Invalid response format"))),
    }
}

/// The prefix of the push-authorization reply body.
pub const CODE_PREFIX: &'static str = "code=";

/// Whether `text` starts with `prefix`.
pub open spec fn has_prefix(text: Seq<char>, prefix: Seq<char>) -> bool {
    prefix.len() <= text.len() && text.subrange(0, prefix.len() as int) == prefix
}

/// Whether `s` starts with `prefix`; when it does, the rest of `s`.
pub fn strip_prefix(s: &str, prefix: &str) -> (r: Option<String>)
    ensures
        has_prefix(s@, prefix@) <==> r is Some,
        r matches Some(rest) ==> rest@ == s@.subrange(prefix@.len() as int, s@.len() as int),
{
    let n = prefix.unicode_len();
    let len = s.unicode_len();
    if n > len {
        return None;
    }
    let mut i: usize = 0;
    while i < n
        invariant
            n == prefix@.len(),
            len == s@.len(),
            n <= len,
            i <= n,
            forall|k: int| 0 <= k < i ==> s@[k] == prefix@[k],
        decreases n - i,
    {
        if s.get_char(i) != prefix.get_char(i) {
            assert(s@.subrange(0, n as int)[i as int] != prefix@[i as int]);
            return None;
        }
        i = i + 1;
    }
    assert(s@.subrange(0, n as int) =~= prefix@);
    Some(String::from_str(s.substring_char(n, len)))
}

/// The result of the push-authorization request. On success the body reads
/// `code=<code>` and the code is returned. `body` is the body text (`None`
/// if it could not be read); `reason` is the status's reason phrase.
pub fn push_authorization_outcome(status: u16, reason: Option<&str>, body: Option<String>) -> (r:
    Result<String, SigningError>)
    ensures
        is_server_error(status) ==> r == Err::<String, SigningError>(SigningError::NetworkError),
        !is_success(status) && !is_server_error(status) ==> (r matches Err(
            SigningError::BadRequest(m),
        ) && m@ == "Push authorization failed: "@ + spec_status_line(status, opt_view(reason))
            + " - "@ + match body {
            Some(b) => b@,
            None => "Unknown error"@,
        }),
        is_success(status) && body is None ==> (r matches Err(SigningError::BadRequest(m))
            && m@ == "Failed to read response"@),
        is_success(status) && body is Some && has_prefix(body->0@, CODE_PREFIX@) ==> (r matches Ok(
            code,
        ) && code@ == body->0@.subrange(5, body->0@.len() as int)),
        is_success(status) && body is Some && !has_prefix(body->0@, CODE_PREFIX@) ==> (r matches Err(
            SigningError::BadRequest(m),
        ) && m@ == "Invalid response format, expected 'code=...', got: "@ + body->0@),
{
    if 500 <= status && status <= 599 {
        return Err(SigningError::NetworkError);
    }
    if !(200 <= status && status <= 299) {
        let line = status_line(status, reason);
        let mut msg = concat3("Push authorization failed: ", line.as_str(), " - ");
        match &body {
            Some(b) => msg.append(b.as_str()),
            None => msg.append("Unknown error"),
        }
        return Err(SigningError::BadRequest(msg));
    }
    match body {
        None => Err(SigningError::BadRequest(String::from_str("Failed to read response"))),
        Some(text) => {
            proof {
                reveal_strlit("code=");
            }
            match strip_prefix(text.as_str(), CODE_PREFIX) {
                Some(code) => Ok(code),
                None => Err(
                    SigningError::BadRequest(
                        concat2("Invalid response format, expected 'code=...', got: ", text.as_str()),
                    ),
                ),
            }
        },
    }
}

/// The result of an authorization poll, with the status of the reply:
/// `200` carries the parsed body (approved), `304` means still waiting and
/// carries an empty body, a server error is `NetworkError`, any other
/// status is a failed request.
pub fn poll_outcome(status: u16, body: Option<PollAuthResponse>) -> (r: Result<
    (PollAuthResponse, u16),
    SigningError,
>)
    ensures
        status == 200 && body is Some ==> (r matches Ok((b, s)) && s == 200 && b == body->0),
        status == 200 && body is None ==> (r matches Err(SigningError::BadRequest(m)) && m@
            == "Invalid response format"@),
        status == 304 ==> (r matches Ok((b, s)) && s == 304 && b.authorization_token is None
            && b.redirect_url is None),
        is_server_error(status) ==> r matches Err(SigningError::NetworkError),
        status != 200 && status != 304 && !is_server_error(status) ==> (r matches Err(
            SigningError::BadRequest(m),
        ) && m@ == "Authentication polling failed: "@ + decimal(status as nat)),
{
    if status == 200 {
        match body {
            Some(b) => Ok((b, status)),
            None => Err(SigningError::BadRequest(String::from_str("Invalid response format"))),
        }
    } else if status == 304 {
        Ok((PollAuthResponse { authorization_token: None, redirect_url: None }, status))
    } else if 500 <= status && status <= 599 {
        Err(SigningError::NetworkError)
    } else {
        let mut msg = String::from_str("Authentication polling failed: ");
        push_decimal(&mut msg, status as u64);
        Err(SigningError::BadRequest(msg))
    }
}

/// The result of the authorization-code exchange: the access token and its
/// validity in seconds (`None` if the body could not be parsed). A server
/// error is `NetworkError`; any other refusal is `Unauthorized`.
pub fn exchange_outcome(status: u16, token: Option<(String, u32)>) -> (r: Result<
    (String, u32),
    SigningError,
>)
    ensures
        is_server_error(status) ==> r == Err::<(String, u32), SigningError>(
            SigningError::NetworkError,
        ),
        !is_success(status) && !is_server_error(status) ==> r == Err::<(String, u32), SigningError>(
            SigningError::Unauthorized,
        ),
        is_success(status) && token is None ==> (r matches Err(SigningError::BadRequest(m))
            && m@ == "Invalid token response format"@),
        is_success(status) && token is Some ==> r == Ok::<(String, u32), SigningError>(
            token->0,
        ),
{
    if 500 <= status && status <= 599 {
        return Err(SigningError::NetworkError);
    }
    if !(200 <= status && status <= 299) {
        return Err(SigningError::Unauthorized);
    }
    match token {
        Some(t) => Ok(t),
        None => Err(SigningError::BadRequest(String::from_str("Invalid token response format"))),
    }
}

/// A batch is sent only when it holds at least one document.
pub fn check_signature_batch(documents: &Vec<DocumentForSignature>) -> (r: Result<(), SigningError>)
    ensures
        documents@.len() > 0 <==> r is Ok,
        documents@.len() == 0 ==> (r matches Err(SigningError::ValidationError(m)) && m@
            == "Cannot sign empty document list"@),
{
    if documents.len() == 0 {
        Err(SigningError::ValidationError(String::from_str("Cannot sign empty document list")))
    } else {
        Ok(())
    }
}

/// The length limit below which an error body is quoted in the message.
pub const ERROR_BODY_QUOTE_LIMIT: usize = 100;

/// The part of a failed signature reply quoted in the error: the body when
/// it is shorter than 100 bytes (its UTF-8 length, as `str::len` reports
/// it), a pointer to the logs otherwise.
pub open spec fn quoted_error_body(body: Seq<char>) -> Seq<char> {
    if (vstd::utf8::encode_utf8(body).len() as usize) < ERROR_BODY_QUOTE_LIMIT {
        body
    } else {
        "See logs for details"@
    }
}

/// The result of the batch signature request. `error_body` is the body
/// text of a failed reply (`None` if it could not be read); `parsed` is the
/// parsed body of a successful one (`None` if it could not be parsed). A
/// server error is `NetworkError`; any other non-success status is a failed
/// request quoting the body.
pub fn signature_outcome(
    status: u16,
    error_body: Option<String>,
    parsed: Option<SignatureResponse>,
) -> (r: Result<SignatureResponse, SigningError>)
    ensures
        is_server_error(status) ==> r matches Err(SigningError::NetworkError),
        !is_success(status) && !is_server_error(status) ==> (r matches Err(
            SigningError::BadRequest(m),
        ) && m@ == "Document signature failed: "@ + quoted_error_body(
            match error_body {
                Some(b) => b@,
                None => "Unable to read error response"@,
            },
        ) + " (Status: "@ + decimal(status as nat) + ")"@),
        is_success(status) && parsed is None ==> (r matches Err(SigningError::BadRequest(m))
            && m@ == "Invalid signature response format"@),
        is_success(status) && parsed is Some ==> r == Ok::<SignatureResponse, SigningError>(
            parsed->0,
        ),
{
    if 500 <= status && status <= 599 {
        return Err(SigningError::NetworkError);
    }
    if !(200 <= status && status <= 299) {
        let body = match error_body {
            Some(b) => b,
            None => String::from_str("Unable to read error response"),
        };
        let quoted = if body.as_str().len() < ERROR_BODY_QUOTE_LIMIT {
            body
        } else {
            String::from_str("See logs for details")
        };
        let mut msg = concat2("Document signature failed: ", quoted.as_str());
        msg.append(" (Status: ");
        push_decimal(&mut msg, status as u64);
        msg.append(")");
        return Err(SigningError::BadRequest(msg));
    }
    match parsed {
        Some(p) => Ok(p),
        None => Err(SigningError::BadRequest(String::from_str("Invalid signature response format"))),
    }
}

} // verus!
