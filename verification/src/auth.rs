//! Authentication decisions: the checks made before asking PAM, how a
//! request is let through (a session, or HTTP Basic credentials), and the
//! key that signs the session cookies.
use vstd::prelude::*;

use crate::error::AppError;
use crate::text;
use crate::text::{chars_to_string, split_once_chars, starts_with_str, str_chars, sub_chars, trim_chars};

verus! {

/// Payload for a login request.
pub struct LoginPayload {
    pub username: String,
    pub password: String,
}

/// The message every refused credential is answered with.
pub open spec fn invalid_credentials() -> Seq<char> {
    "Invalid credentials"@
}

fn invalid_credentials_error() -> (r: AppError)
    ensures
        r matches AppError::Unauthorized(m) && m@ == invalid_credentials(),
{
    AppError::Unauthorized(chars_to_string(str_chars("Invalid credentials").as_slice()))
}

/// Credentials that are refused before PAM is asked: an empty or blank
/// username, an empty password, or a username longer than 256 bytes.
pub open spec fn credentials_refused(username: &str, password: &str) -> bool {
    text::trim(username@).len() == 0 || password@.len() == 0 || username.len() > 256
}

/// The checks made on credentials before they are handed to PAM.
pub fn check_credentials(username: &str, password: &str) -> (r: Result<(), AppError>)
    ensures
        credentials_refused(username, password) ==> (r matches Err(AppError::Unauthorized(m))
            && m@ == invalid_credentials()),
        !credentials_refused(username, password) ==> r is Ok,
{
    let u = str_chars(username);
    let t = trim_chars(u.as_slice());
    if t.len() == 0 || password.is_empty() {
        return Err(invalid_credentials_error());
    }
    if username.len() > 256 {
        return Err(invalid_credentials_error());
    }
    Ok(())
}

/// The checks made by the login endpoint before authenticating: an empty
/// or blank username, or an empty password, is refused.
pub fn check_login(payload: &LoginPayload) -> (r: Result<(), AppError>)
    ensures
        (text::trim(payload.username@).len() == 0 || payload.password@.len() == 0) ==> (
        r matches Err(AppError::Unauthorized(m)) && m@ == invalid_credentials()),
        !(text::trim(payload.username@).len() == 0 || payload.password@.len() == 0) ==> r is Ok,
{
    let u = str_chars(payload.username.as_str());
    let t = trim_chars(u.as_slice());
    if t.len() == 0 || payload.password.as_str().is_empty() {
        return Err(invalid_credentials_error());
    }
    Ok(())
}

/// The PAM service that authenticates users: the one the environment
/// names, or "yanos".
pub fn pam_service_name(configured: Option<String>) -> (r: String)
    ensures
        r@ == match configured {
            Some(s) => s@,
            None => "yanos"@,
        },
{
    match configured {
        Some(s) => s,
        None => chars_to_string(str_chars("yanos").as_slice()),
    }
}

/// The result of authenticating with PAM: the PAM task may have failed
/// (an internal error), PAM may have refused (invalid credentials), or it
/// may have accepted.
pub fn pam_outcome(task: Result<Result<(), String>, String>) -> (r: Result<(), AppError>)
    ensures
        match task {
            Err(e) => r matches Err(AppError::InternalServerError(m)) && m@ == "PAM task failed: "@
                + e@,
            Ok(Err(_)) => r matches Err(AppError::Unauthorized(m)) && m@ == invalid_credentials(),
            Ok(Ok(())) => r is Ok,
        },
{
    match task {
        Err(e) => Err(AppError::InternalServerError(text::join2("PAM task failed: ", e.as_str()))),
        Ok(Err(_)) => Err(invalid_credentials_error()),
        Ok(Ok(())) => Ok(()),
    }
}

/// The most messages one PAM conversation may carry.
pub const MAX_PAM_MESSAGES: i32 = 32;

/// The answers of the PAM conversation: none (a conversation error) unless
/// there are between 1 and 32 messages; otherwise, for each message,
/// whether it is answered with the password (a prompt that does not echo)
/// or left unanswered.
pub fn conversation_answers(num_msg: i32, echo_off: &[bool]) -> (r: Option<Vec<bool>>)
    requires
        0 < num_msg <= MAX_PAM_MESSAGES ==> echo_off@.len() == num_msg,
    ensures
        (num_msg <= 0 || num_msg > MAX_PAM_MESSAGES) ==> r is None,
        0 < num_msg <= MAX_PAM_MESSAGES ==> (r matches Some(v) && v@ == echo_off@),
{
    if num_msg <= 0 || num_msg > MAX_PAM_MESSAGES {
        return None;
    }
    let mut v: Vec<bool> = Vec::new();
    let mut i: usize = 0;
    while i < echo_off.len()
        invariant
            i <= echo_off@.len(),
            v@ == echo_off@.take(i as int),
        decreases echo_off@.len() - i,
    {
        v.push(echo_off[i]);
        proof {
            assert(echo_off@.take(i + 1) =~= echo_off@.take(i as int).push(echo_off@[i as int]));
        }
        i += 1;
    }
    proof {
        assert(echo_off@.take(echo_off@.len() as int) =~= echo_off@);
    }
    Some(v)
}

// ---------------------------------------------------------------------------
// HTTP Basic credentials
// ---------------------------------------------------------------------------

/// What the standard base64 engine of the `base64` crate decodes from a
/// text: its bytes, or none when the text is not valid base64.
pub uninterp spec fn base64_standard_decoded(input: Seq<char>) -> Option<Seq<u8>>;

/// `base64::engine::general_purpose::STANDARD.decode`, on the bytes of
/// `input`.  Claimed: the result is the decoding named by
/// `base64_standard_decoded`, a function of the input alone.
#[verifier::external_body]
fn decode_base64(input: &str) -> (r: Option<Vec<u8>>)
    ensures
        match r {
            Some(b) => base64_standard_decoded(input@) == Some(b@),
            None => base64_standard_decoded(input@) is None,
        },
{
    base64::Engine::decode(&base64::engine::general_purpose::STANDARD, input).ok()
}

/// What `String::from_utf8` gives for bytes: the characters they encode,
/// or none when they are not well-formed UTF-8.
pub open spec fn utf8_decoded(bytes: Seq<u8>) -> Option<Seq<char>> {
    if vstd::utf8::valid_utf8(bytes) {
        Some(vstd::utf8::decode_utf8(bytes))
    } else {
        None
    }
}

/// `String::from_utf8`.  Claimed: it succeeds exactly on well-formed UTF-8
/// (no overlong encoding, no surrogate), and the text is the characters
/// the bytes encode, as vstd's `valid_utf8` and `decode_utf8` state them.
#[verifier::external_body]
pub(crate) fn utf8_text(bytes: Vec<u8>) -> (r: Option<String>)
    ensures
        match r {
            Some(s) => utf8_decoded(bytes@) == Some(s@),
            None => utf8_decoded(bytes@) is None,
        },
{
    String::from_utf8(bytes).ok()
}

/// The user and password that an `Authorization` header carries: the
/// header is "Basic " followed by base64 (trimmed) of UTF-8 text
/// "user:password", split at its first colon.
pub open spec fn basic_credentials(header: Seq<char>) -> Option<(Seq<char>, Seq<char>)> {
    match text::strip_prefix(header, "Basic "@) {
        Some(encoded) => match base64_standard_decoded(text::trim(encoded)) {
            Some(bytes) => match utf8_decoded(bytes) {
                Some(pair) => text::split_once(pair, ':'),
                None => None,
            },
            None => None,
        },
        None => None,
    }
}

/// Reads the user and password of an `Authorization` header.
pub fn basic_credentials_of(header: &str) -> (r: Option<(String, String)>)
    ensures
        match r {
            Some((u, p)) => basic_credentials(header@) == Some((u@, p@)),
            None => basic_credentials(header@) is None,
        },
{
    let h = str_chars(header);
    if !starts_with_str(h.as_slice(), "Basic ") {
        return None;
    }
    proof {
        reveal_strlit("Basic ");
    }
    let n = h.len();
    let encoded = sub_chars(h.as_slice(), 6, n);
    let trimmed = trim_chars(encoded.as_slice());
    let trimmed_text = chars_to_string(trimmed.as_slice());
    let bytes = match decode_base64(trimmed_text.as_str()) {
        Some(b) => b,
        None => return None,
    };
    let pair = match utf8_text(bytes) {
        Some(s) => s,
        None => return None,
    };
    let pc = str_chars(pair.as_str());
    match split_once_chars(pc.as_slice(), ':') {
        Some((u, p)) => Some((chars_to_string(u.as_slice()), chars_to_string(p.as_slice()))),
        None => None,
    }
}

/// What the authentication guard does with a request.
pub enum GuardDecision {
    /// The session knows the user: let the request through.
    Allow,
    /// Authenticate these Basic credentials; on success remember the user
    /// in the session and let the request through.
    Authenticate { user: String, password: String },
    /// Refuse the request: authentication is required.
    Deny,
}

/// The decision of the authentication guard: a request whose session
/// holds a user passes; otherwise one with readable Basic credentials is
/// authenticated with them; any other is refused.
pub fn auth_guard(session_has_user: bool, authorization: Option<String>) -> (r: GuardDecision)
    ensures
        session_has_user ==> r is Allow,
        !session_has_user ==> match authorization {
            Some(h) => match basic_credentials(h@) {
                Some((u, p)) => r matches GuardDecision::Authenticate { user, password } && user@
                    == u && password@ == p,
                None => r is Deny,
            },
            None => r is Deny,
        },
{
    if session_has_user {
        return GuardDecision::Allow;
    }
    match authorization {
        Some(h) => match basic_credentials_of(h.as_str()) {
            Some((user, password)) => GuardDecision::Authenticate { user, password },
            None => GuardDecision::Deny,
        },
        None => GuardDecision::Deny,
    }
}

/// The error of a request refused by the guard.
pub fn authentication_required() -> (r: AppError)
    ensures
        r matches AppError::Unauthorized(m) && m@ == "Authentication required"@,
{
    AppError::Unauthorized(chars_to_string(str_chars("Authentication required").as_slice()))
}

// ---------------------------------------------------------------------------
// The session key
// ---------------------------------------------------------------------------

/// The length of a freshly made key, in bytes.
pub const KEY_LEN: usize = 64;

/// Sixty-four bytes from the thread-local generator of `rand`
/// (`RngCore::fill_bytes`).  Claimed: the length; the bytes are left free.
#[verifier::external_body]
fn random_key() -> (r: Vec<u8>)
    ensures
        r@.len() == KEY_LEN,
{
    let mut secret = [0u8; 64];
    rand::RngCore::fill_bytes(&mut rand::thread_rng(), &mut secret);
    secret.to_vec()
}

/// The key that signs session cookies, and whether it is new (and must be
/// saved): the stored key when it is at least 64 bytes long, otherwise a
/// fresh random one.
pub fn session_key(stored: Option<Vec<u8>>) -> (r: (Vec<u8>, bool))
    ensures
        r.0@.len() >= KEY_LEN,
        match stored {
            Some(k) => if k@.len() >= KEY_LEN {
                r.0@ == k@ && !r.1
            } else {
                r.1
            },
            None => r.1,
        },
        r.1 ==> r.0@.len() == KEY_LEN,
{
    match stored {
        Some(k) => {
            if k.len() >= KEY_LEN {
                return (k, false);
            }
        },
        None => {},
    }
    (random_key(), true)
}

} // verus!
