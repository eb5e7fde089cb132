//! Device pairing with the cloud account: the device's SSH identity, the
//! signed project-list request and its retry policy, and how pairing
//! responses are read. The HTTP exchanges themselves are made by the daemon.

use vstd::prelude::*;
use base64::Engine;
use ed25519_dalek::Signer;
use sha2::Digest;
use crate::text::{
    chars_of, string_of, cat, owned, str_eq, trim, trim_vec, trim_end_vec, eq_pred, ws_pred, class_pred, CharClass,
    dec, dec_chars, trim_end_by, fmt_int,
};
use crate::errors::BridgeError;
use crate::wire::CloudProject;

verus! {

// ---- outside primitives ----------------------------------------------------------------

/// The Ed25519 public key (32 bytes) of the signing key with this seed.
pub uninterp spec fn ed25519_public_key_of(seed: Seq<u8>) -> Seq<u8>;

/// The Ed25519 signature (64 bytes) of `message` by the key with this seed.
pub uninterp spec fn ed25519_signature_of(seed: Seq<u8>, message: Seq<u8>) -> Seq<u8>;

/// The SHA-256 digest of `data`.
pub uninterp spec fn sha256_of(data: Seq<u8>) -> Seq<u8>;

/// Standard (padded) base64 text of `data`.
pub uninterp spec fn base64_standard_text(data: Seq<u8>) -> Seq<char>;

/// Standard-alphabet base64 text of `data` without `=` padding.
pub uninterp spec fn base64_unpadded_text(data: Seq<u8>) -> Seq<char>;

/// The bytes standard base64 `text` decodes to, or the decoder's error message.
pub uninterp spec fn base64_standard_decoding(text: Seq<char>) -> Result<Seq<u8>, Seq<char>>;

/// `ed25519_dalek::SigningKey::from_bytes(seed).verifying_key().to_bytes()`:
/// the public key derived from the seed, a function of the seed alone.
#[verifier::external_body]
fn ed25519_public_key(seed: &[u8; 32]) -> (r: [u8; 32])
    ensures
        r@ == ed25519_public_key_of(seed@),
{
    ed25519_dalek::SigningKey::from_bytes(seed).verifying_key().to_bytes()
}

/// `Signer::sign` of `ed25519_dalek::SigningKey` followed by `Signature::to_bytes`.
/// Ed25519 signing is deterministic, so the signature depends on the seed and
/// the message alone.
#[verifier::external_body]
fn ed25519_sign(seed: &[u8; 32], message: &[u8]) -> (r: [u8; 64])
    ensures
        r@ == ed25519_signature_of(seed@, message@),
{
    ed25519_dalek::SigningKey::from_bytes(seed).sign(message).to_bytes()
}

/// `sha2::Sha256::digest`: the 32-byte SHA-256 digest of `data`.
#[verifier::external_body]
pub(crate) fn sha256(data: &[u8]) -> (r: [u8; 32])
    ensures
        r@ == sha256_of(data@),
{
    sha2::Sha256::digest(data).into()
}

/// `base64::engine::general_purpose::STANDARD.encode`. It panics only when the
/// encoded length overflows `usize`, which the bound excludes.
#[verifier::external_body]
fn base64_standard(data: &[u8]) -> (r: String)
    requires
        data@.len() <= usize::MAX / 2,
    ensures
        r@ == base64_standard_text(data@),
{
    base64::engine::general_purpose::STANDARD.encode(data)
}

/// `base64::engine::general_purpose::STANDARD_NO_PAD.encode`; same bound as above.
#[verifier::external_body]
fn base64_unpadded(data: &[u8]) -> (r: String)
    requires
        data@.len() <= usize::MAX / 2,
    ensures
        r@ == base64_unpadded_text(data@),
{
    base64::engine::general_purpose::STANDARD_NO_PAD.encode(data)
}

/// `base64::engine::general_purpose::STANDARD.decode`, with a decode error
/// turned into its display text.
#[verifier::external_body]
fn base64_standard_decode(text: &str) -> (r: Result<Vec<u8>, String>)
    ensures
        match r {
            Ok(v) => base64_standard_decoding(text@) == Ok::<Seq<u8>, Seq<char>>(v@),
            Err(m) => base64_standard_decoding(text@) == Err::<Seq<u8>, Seq<char>>(m@),
        },
{
    match base64::engine::general_purpose::STANDARD.decode(text) {
        Ok(v) => Ok(v),
        Err(e) => Err(e.to_string()),
    }
}

// ---- SSH identity -----------------------------------------------------------------------

/// The SSH wire encoding of an Ed25519 public key:
/// `string("ssh-ed25519") || string(key)`, each string length-prefixed big-endian.
pub open spec fn ssh_key_blob(pk: Seq<u8>) -> Seq<u8> {
    seq![0u8, 0u8, 0u8, 11u8] + "ssh-ed25519"@.map_values(|c: char| c as u8) + seq![0u8, 0u8, 0u8, 32u8] + pk
}

fn ssh_blob(pk: &[u8; 32]) -> (r: Vec<u8>)
    ensures
        r@ == ssh_key_blob(pk@),
        r@.len() == 51,
{
    let mut blob: Vec<u8> = Vec::new();
    blob.push(0);
    blob.push(0);
    blob.push(0);
    blob.push(11);
    let name: [u8; 11] = [115, 115, 104, 45, 101, 100, 50, 53, 53, 49, 57];
    let mut i: usize = 0;
    while i < 11
        invariant
            i <= 11,
            blob@.len() == 4 + i,
            blob@ == seq![0u8, 0u8, 0u8, 11u8] + name@.subrange(0, i as int),
        decreases 11 - i,
    {
        blob.push(name[i]);
        proof {
            assert(name@.subrange(0, i + 1) == name@.subrange(0, i as int).push(name@[i as int]));
        }
        i = i + 1;
    }
    blob.push(0);
    blob.push(0);
    blob.push(0);
    blob.push(32);
    let mut j: usize = 0;
    let ghost head = blob@;
    while j < 32
        invariant
            j <= 32,
            blob@ == head + pk@.subrange(0, j as int),
            head.len() == 19,
        decreases 32 - j,
    {
        blob.push(pk[j]);
        proof {
            assert(pk@.subrange(0, j + 1) == pk@.subrange(0, j as int).push(pk@[j as int]));
        }
        j = j + 1;
    }
    proof {
        reveal_strlit("ssh-ed25519");
        assert(name@.subrange(0, 11) =~= "ssh-ed25519"@.map_values(|c: char| c as u8));
        assert(pk@.subrange(0, 32) =~= pk@);
        assert(blob@ =~= ssh_key_blob(pk@));
    }
    blob
}

/// `ssh-ed25519 <base64 of the key blob>`, a line for `authorized_keys`.
pub open spec fn spec_openssh_public(seed: Seq<u8>) -> Seq<char> {
    "ssh-ed25519 "@ + base64_standard_text(ssh_key_blob(ed25519_public_key_of(seed)))
}

/// `SHA256:<unpadded base64 of the blob's SHA-256>`, as `ssh-keygen -lf` prints it.
pub open spec fn spec_fingerprint(seed: Seq<u8>) -> Seq<char> {
    "SHA256:"@ + base64_unpadded_text(sha256_of(ssh_key_blob(ed25519_public_key_of(seed))))
}

/// The OpenSSH public-key line of the device key with this seed.
pub fn openssh_public(seed: &[u8; 32]) -> (r: String)
    ensures
        r@ == spec_openssh_public(seed@),
{
    let pk = ed25519_public_key(seed);
    let blob = ssh_blob(&pk);
    let text = base64_standard(blob.as_slice());
    string_of(&cat(&chars_of("ssh-ed25519 "), &chars_of(text.as_str())))
}

/// The SHA-256 fingerprint of the device key with this seed.
pub fn fingerprint_for(seed: &[u8; 32]) -> (r: String)
    ensures
        r@ == spec_fingerprint(seed@),
{
    let pk = ed25519_public_key(seed);
    let blob = ssh_blob(&pk);
    let digest = sha256(blob.as_slice());
    let text = base64_unpadded(&digest);
    string_of(&cat(&chars_of("SHA256:"), &chars_of(text.as_str())))
}

/// The keychain's form of a signing seed: its standard base64 text.
pub fn seed_to_stored(seed: &[u8; 32]) -> (r: String)
    ensures
        r@ == base64_standard_text(seed@),
{
    base64_standard(seed)
}

/// How a stored key seed reads back: the 32 bytes that its trimmed base64
/// text decodes to, else a keychain error naming the decode failure or the
/// wrong length.
pub open spec fn spec_seed_from_stored(stored: Seq<char>) -> Result<Seq<u8>, Seq<char>> {
    match base64_standard_decoding(trim(stored)) {
        Err(m) => Err("base64: "@ + m),
        Ok(bytes) => if bytes.len() == 32 {
            Ok(bytes)
        } else {
            Err("ssh seed wrong length: got "@ + dec(bytes.len()))
        },
    }
}

/// The key seed kept in the keychain, decoded; failures are keychain errors.
pub fn seed_from_stored(stored: &str) -> (r: Result<[u8; 32], BridgeError>)
    ensures
        match (r, spec_seed_from_stored(stored@)) {
            (Ok(seed), Ok(bytes)) => seed@ == bytes,
            (Err(BridgeError::Keychain(m)), Err(text)) => m@ == text,
            _ => false,
        },
{
    let trimmed = string_of(&trim_vec(&chars_of(stored), &CharClass::Whitespace));
    proof {
        assert(class_pred(CharClass::Whitespace) == ws_pred());
    }
    match base64_standard_decode(trimmed.as_str()) {
        Err(m) => Err(BridgeError::Keychain(string_of(&cat(&chars_of("base64: "), &chars_of(m.as_str()))))),
        Ok(bytes) => {
            if bytes.len() == 32 {
                let mut seed = [0u8; 32];
                let mut i: usize = 0;
                while i < 32
                    invariant
                        i <= 32,
                        bytes@.len() == 32,
                        seed@.len() == 32,
                        forall|k: int| 0 <= k < i ==> seed@[k] == bytes@[k],
                    decreases 32 - i,
                {
                    seed[i] = bytes[i];
                    i = i + 1;
                }
                proof {
                    assert(seed@ =~= bytes@);
                }
                Ok(seed)
            } else {
                let n = bytes.len() as u64;
                let m = cat(&chars_of("ssh seed wrong length: got "), &dec_chars(n));
                Err(BridgeError::Keychain(string_of(&m)))
            }
        },
    }
}

// ---- URLs and responses ------------------------------------------------------------------

/// A base URL without its trailing slashes.
pub open spec fn base_url(b: Seq<char>) -> Seq<char> {
    trim_end_by(b, eq_pred('/'))
}

/// `base` without trailing slashes, followed by `path`.
pub fn api_url(base: &str, path: &str) -> (r: String)
    ensures
        r@ == base_url(base@) + path@,
{
    let b = trim_end_vec(&chars_of(base), &CharClass::Exactly('/'));
    proof {
        assert(class_pred(CharClass::Exactly('/')) == eq_pred('/'));
    }
    string_of(&cat(&b, &chars_of(path)))
}

/// The key identity and account the cloud returns once the user approves pairing.
#[derive(Debug, Clone, PartialEq, Eq)]
pub struct PairApproval {
    pub key_id: String,
    pub account_id: Option<String>,
    pub account_email: Option<String>,
    pub account_name: Option<String>,
}

/// What the user is shown to finish pairing in the browser.
#[derive(Debug, Clone, PartialEq, Eq)]
pub struct PairingOutcome {
    pub code: String,
    pub pair_url: String,
    pub expires_at: String,
    pub key_fingerprint: String,
}

/// The pairing screen for a started pairing: `{web_base}/pair?code={code}`.
pub fn pairing_outcome(web_base: &str, code: String, expires_at: String, key_fingerprint: String) -> (r: PairingOutcome)
    ensures
        r.pair_url@ == base_url(web_base@) + "/pair?code="@ + code@,
        r.code == code,
        r.expires_at == expires_at,
        r.key_fingerprint == key_fingerprint,
{
    let tail = string_of(&cat(&chars_of("/pair?code="), &chars_of(code.as_str())));
    let pair_url = api_url(web_base, tail.as_str());
    PairingOutcome { code, pair_url, expires_at, key_fingerprint }
}

/// The error a refused pairing start reports: `{status}: {trimmed body}`.
pub fn start_failure(status: &str, body: &str) -> (r: BridgeError)
    ensures
        r matches BridgeError::UpstreamApi(m) && m@ == status@ + ": "@ + trim(body@),
{
    let t = trim_vec(&chars_of(body), &CharClass::Whitespace);
    proof {
        assert(class_pred(CharClass::Whitespace) == ws_pred());
    }
    let m = cat(&cat(&chars_of(status), &chars_of(": ")), &t);
    BridgeError::UpstreamApi(string_of(&m))
}

/// How one poll of a pairing code reads: `approved` with a key id gives the
/// approval, `pending` gives nothing yet, and anything else is an upstream error.
pub open spec fn spec_poll_outcome(status: Seq<char>, key_id: Option<Seq<char>>, http_status: Seq<char>) -> Result<Option<Seq<char>>, Seq<char>> {
    if status == "approved"@ {
        match key_id {
            Some(k) => Ok(Some(k)),
            None => Err("pairing approved but no key id returned"@),
        }
    } else if status == "pending"@ {
        Ok(None)
    } else if status == "expired"@ {
        Err("pairing code expired"@)
    } else if status == "not_found"@ {
        Err("pairing code not found"@)
    } else {
        Err("unexpected pairing status "@ + status + " (HTTP "@ + http_status + ")"@)
    }
}

pub open spec fn opt_text(o: Option<String>) -> Option<Seq<char>> {
    match o {
        Some(s) => Some(s@),
        None => None,
    }
}

/// The result of one poll, from the reported status, key id and account, and
/// the HTTP status line.
pub fn poll_outcome(
    status: &str,
    key_id: Option<String>,
    account_id: Option<String>,
    account_email: Option<String>,
    account_name: Option<String>,
    http_status: &str,
) -> (r: Result<Option<PairApproval>, BridgeError>)
    ensures
        match (r, spec_poll_outcome(status@, opt_text(key_id), http_status@)) {
            (Ok(None), Ok(None)) => true,
            (Ok(Some(a)), Ok(Some(k))) => a.key_id@ == k && a.account_id == account_id && a.account_email
                == account_email && a.account_name == account_name,
            (Err(BridgeError::UpstreamApi(m)), Err(t)) => m@ == t,
            _ => false,
        },
{
    if str_eq(status, "approved") {
        match key_id {
            Some(k) => Ok(Some(PairApproval { key_id: k, account_id, account_email, account_name })),
            None => Err(BridgeError::UpstreamApi(owned("pairing approved but no key id returned"))),
        }
    } else if str_eq(status, "pending") {
        Ok(None)
    } else if str_eq(status, "expired") {
        Err(BridgeError::UpstreamApi(owned("pairing code expired")))
    } else if str_eq(status, "not_found") {
        Err(BridgeError::UpstreamApi(owned("pairing code not found")))
    } else {
        let mut m = cat(&chars_of("unexpected pairing status "), &chars_of(status));
        m = cat(&m, &chars_of(" (HTTP "));
        m = cat(&m, &chars_of(http_status));
        m = cat(&m, &chars_of(")"));
        Err(BridgeError::UpstreamApi(string_of(&m)))
    }
}

// ---- the signed project-list request ------------------------------------------------------

/// How many times the project list is requested before giving up.
pub const PROJECTS_MAX_ATTEMPTS: u8 = 3;

pub open spec fn spec_should_retry_status(status: u16) -> bool {
    status == 408 || status == 429 || (500 <= status && status <= 599)
}

/// Request timeouts, rate limiting and server errors are worth retrying.
pub fn should_retry_status(status: u16) -> (r: bool)
    ensures
        r == spec_should_retry_status(status),
{
    status == 408 || status == 429 || (500 <= status && status <= 599)
}

/// `GET\n/api/device-pairing/projects\n{timestamp}`, the text the device signs.
pub open spec fn projects_signing_text(timestamp: nat) -> Seq<char> {
    "GET\n/api/device-pairing/projects\n"@ + dec(timestamp)
}

/// The headers and URL of a signed project-list request.
#[derive(Debug, Clone, PartialEq, Eq)]
pub struct ProjectsRequest {
    pub url: String,
    /// `X-Vex-Key-Id`.
    pub key_id: String,
    /// `X-Vex-Timestamp`.
    pub timestamp: u64,
    /// `X-Vex-Signature`: base64 of the Ed25519 signature of the signing text.
    pub signature: String,
}

/// The signed project-list request, or `PairingKeyUnavailable` when the
/// registered key id is blank (no network access is attempted then).
pub fn projects_request(api_base: &str, key_id: &str, timestamp: u64, seed: &[u8; 32]) -> (r: Result<ProjectsRequest, BridgeError>)
    ensures
        match r {
            Err(e) => trim(key_id@).len() == 0 && e == BridgeError::PairingKeyUnavailable,
            Ok(q) => trim(key_id@).len() > 0 && q.key_id@ == trim(key_id@) && q.timestamp == timestamp && q.url@
                == base_url(api_base@) + "/api/device-pairing/projects"@ && q.signature@ == base64_standard_text(
                ed25519_signature_of(seed@, encode_utf8_text(projects_signing_text(timestamp as nat))),
            ),
        },
{
    let key = trim_vec(&chars_of(key_id), &CharClass::Whitespace);
    proof {
        assert(class_pred(CharClass::Whitespace) == ws_pred());
    }
    if key.len() == 0 {
        return Err(BridgeError::PairingKeyUnavailable);
    }
    let text = string_of(&cat(&chars_of("GET\n/api/device-pairing/projects\n"), &dec_chars(timestamp)));
    let signature = ed25519_sign(seed, text.as_str().as_bytes());
    let encoded = base64_standard(&signature);
    Ok(
        ProjectsRequest {
            url: api_url(api_base, "/api/device-pairing/projects"),
            key_id: string_of(&key),
            timestamp,
            signature: encoded,
        },
    )
}

pub open spec fn encode_utf8_text(s: Seq<char>) -> Seq<u8> {
    vstd::utf8::encode_utf8(s)
}

/// What came back from one project-list request.
#[derive(Debug, Clone, PartialEq, Eq)]
pub enum ProjectsResponse {
    /// A success status whose body read as a project list.
    Listed(Vec<CloudProject>),
    /// A success status whose body did not read as a project list; the reader's message.
    Unreadable(String),
    /// Any other status: its code and its display text (`503 Service Unavailable`).
    Status(u16, String),
    /// The request did not complete; the transport error's message.
    Unreachable(String),
}

/// What to do after a response.
#[derive(Debug, Clone, PartialEq, Eq)]
pub enum ProjectsStep {
    /// Wait this many milliseconds, then send the request again.
    Retry(u64),
    Return(Vec<CloudProject>),
    Fail(BridgeError),
}

/// The retry state of a project-list fetch.
#[derive(Debug, Clone, Copy, PartialEq, Eq)]
pub struct ProjectsFetch {
    /// The attempt now in flight, from 1.
    pub attempt: u8,
}

pub open spec fn fetch_wf(f: ProjectsFetch) -> bool {
    1 <= f.attempt <= PROJECTS_MAX_ATTEMPTS
}

/// One response handled: success returns the list; an unreadable success body
/// or an unexpected status is an invalid response; 401 and 403 reject the
/// credentials; a retryable status or a transport failure waits `250 ms`
/// times the attempt and retries, until the last attempt, which reports the
/// service unavailable.
pub open spec fn projects_next(f: ProjectsFetch, e: ProjectsResponse, n: ProjectsFetch, s: ProjectsStep) -> bool {
    let retry_or = |m: Seq<char>|
        if f.attempt < PROJECTS_MAX_ATTEMPTS {
            n.attempt == f.attempt + 1 && s == ProjectsStep::Retry((250 * f.attempt) as u64)
        } else {
            n == f && (s matches ProjectsStep::Fail(BridgeError::CloudProjectsUnavailable(t)) && t@ == m)
        };
    match e {
        ProjectsResponse::Listed(list) => n == f && s == ProjectsStep::Return(list),
        ProjectsResponse::Unreadable(m) => n == f && (s matches ProjectsStep::Fail(
            BridgeError::CloudProjectsInvalidResponse(t),
        ) && t@ == "expected a project list: "@ + m@),
        ProjectsResponse::Status(code, text) => if code == 401 || code == 403 {
            n == f && s == ProjectsStep::Fail(BridgeError::PairingCredentialsRejected)
        } else if spec_should_retry_status(code) {
            retry_or("HTTP "@ + text@)
        } else {
            n == f && (s matches ProjectsStep::Fail(BridgeError::CloudProjectsInvalidResponse(t)) && t@ == "HTTP "@
                + text@)
        },
        ProjectsResponse::Unreachable(m) => retry_or(m@),
    }
}

impl ProjectsFetch {
    /// The first attempt.
    pub fn first() -> (f: ProjectsFetch)
        ensures
            f.attempt == 1,
            fetch_wf(f),
    {
        ProjectsFetch { attempt: 1 }
    }

    fn retry_or_fail(&mut self, message: String) -> (s: ProjectsStep)
        requires
            fetch_wf(*old(self)),
        ensures
            fetch_wf(*final(self)),
            if old(self).attempt < PROJECTS_MAX_ATTEMPTS {
                final(self).attempt == old(self).attempt + 1 && s == ProjectsStep::Retry((250 * old(self).attempt) as u64)
            } else {
                *final(self) == *old(self) && (s matches ProjectsStep::Fail(BridgeError::CloudProjectsUnavailable(t))
                    && t@ == message@)
            },
    {
        if self.attempt < PROJECTS_MAX_ATTEMPTS {
            let wait: u64 = 250 * (self.attempt as u64);
            self.attempt = self.attempt + 1;
            ProjectsStep::Retry(wait)
        } else {
            ProjectsStep::Fail(BridgeError::CloudProjectsUnavailable(message))
        }
    }

    /// Handle the response to the attempt in flight.
    pub fn on_response(&mut self, e: ProjectsResponse) -> (s: ProjectsStep)
        requires
            fetch_wf(*old(self)),
        ensures
            fetch_wf(*final(self)),
            projects_next(*old(self), e, *final(self), s),
    {
        match e {
            ProjectsResponse::Listed(list) => ProjectsStep::Return(list),
            ProjectsResponse::Unreadable(m) => {
                let t = string_of(&cat(&chars_of("expected a project list: "), &chars_of(m.as_str())));
                ProjectsStep::Fail(BridgeError::CloudProjectsInvalidResponse(t))
            },
            ProjectsResponse::Status(code, text) => {
                let t = string_of(&cat(&chars_of("HTTP "), &chars_of(text.as_str())));
                if code == 401 || code == 403 {
                    ProjectsStep::Fail(BridgeError::PairingCredentialsRejected)
                } else if should_retry_status(code) {
                    self.retry_or_fail(t)
                } else {
                    ProjectsStep::Fail(BridgeError::CloudProjectsInvalidResponse(t))
                }
            },
            ProjectsResponse::Unreachable(m) => self.retry_or_fail(m),
        }
    }
}

/// A project-list fetch sends at most three requests: it retries only before
/// the last attempt, moving to the next one, and every other response ends it.
pub proof fn law_projects_fetch_is_bounded(f: ProjectsFetch, e: ProjectsResponse, n: ProjectsFetch, s: ProjectsStep)
    requires
        fetch_wf(f),
        projects_next(f, e, n, s),
    ensures
        fetch_wf(n),
        s is Retry ==> f.attempt < PROJECTS_MAX_ATTEMPTS && n.attempt == f.attempt + 1,
        f.attempt == PROJECTS_MAX_ATTEMPTS ==> !(s is Retry),
{
}

} // verus!
