//! Account handling at the boundary of this core: session claims, and
//! the validation rules for sign-up and sign-in input.
use crate::bytestr::ascii_seq;
use crate::error::ApiError;
use crate::url::is_word_byte;
use vstd::prelude::*;

verus! {

/// How long an issued session token lives, in seconds: thirty days.
pub const SESSION_LIFETIME_SECS: usize = 2592000;

/// The claims carried by a session token.
#[derive(Clone, Debug)]
pub struct Claims {
    /// Expiration time. Unix timestamp.
    pub exp: usize,
    /// Issued at. Unix timestamp.
    pub iat: usize,
    /// Issuer. Currently always "ActivityMemes Account Sign-In".
    pub iss: Vec<u8>,
    /// Username.
    pub sub: Vec<u8>,
}

/// The issuer every session token carries.
pub open spec fn session_issuer() -> Seq<u8> {
    ascii_seq("ActivityMemes Account Sign-In"@)
}

/// The claims of a fresh session for the given user: issued now, expiring
/// thirty days later.
pub fn make_claims(now_ts: usize, username: Vec<u8>) -> (r: Claims)
    requires
        now_ts + SESSION_LIFETIME_SECS <= usize::MAX,
    ensures
        r.exp == now_ts + SESSION_LIFETIME_SECS,
        r.iat == now_ts,
        r.iss@ == session_issuer(),
        r.sub@ == username@,
{
    proof {
        reveal_strlit("ActivityMemes Account Sign-In");
    }
    let iss = crate::bytestr::str_to_bytes("ActivityMemes Account Sign-In");
    Claims { exp: now_ts + SESSION_LIFETIME_SECS, iat: now_ts, iss, sub: username }
}

/// The sign-in request body.
#[derive(Clone, Debug)]
pub struct SignInBody {
    pub email: Vec<u8>,
    pub password: Vec<u8>,
}

/// The sign-up request body.
#[derive(Clone, Debug)]
pub struct PostSignUpBody {
    pub username: Vec<u8>,
    pub email: Vec<u8>,
    pub password: Vec<u8>,
}

/// True when the bytes look like an email address: no whitespace
/// anywhere, an `@` preceded by at least one byte, and after it a `.`
/// with at least one byte on each side.
pub open spec fn is_valid_email(s: Seq<u8>) -> bool {
    &&& forall|i: int| 0 <= i < s.len() ==> !crate::bytestr::is_space(#[trigger] s[i])
    &&& exists|i: int, j: int|
        1 <= i && i + 2 <= j && j + 2 <= s.len() && #[trigger] s[i] == 64 && #[trigger] s[j] == 46
}

/// Checks the email shape: one or more non-whitespace bytes, an `@`,
/// one or more, a `.`, and one or more again.
pub fn validate_email(email: &[u8]) -> (r: bool)
    ensures
        r == is_valid_email(email@),
{
    let len = email.len();
    let mut k: usize = 0;
    while k < len
        invariant
            k <= len,
            len == email@.len(),
            forall|i: int| 0 <= i < k ==> !crate::bytestr::is_space(#[trigger] email@[i]),
        decreases len - k,
    {
        if crate::bytestr::is_space_byte(email[k]) {
            return false;
        }
        k += 1;
    }
    let mut i: usize = 1;
    while i < len
        invariant
            1 <= i <= len || len == 0,
            len == email@.len(),
            forall|a: int| 0 <= a < len ==> !crate::bytestr::is_space(#[trigger] email@[a]),
            forall|a: int, b: int|
                1 <= a < i && a + 2 <= b && b + 2 <= len ==> !(#[trigger] email@[a] == 64
                    && #[trigger] email@[b] == 46),
        decreases len - i,
    {
        if email[i] == 64 && len - i >= 4 {
            // Look for a dot far enough beyond this at-sign.
            let mut j: usize = i + 2;
            while len - j >= 2
                invariant
                    i + 2 <= j <= len,
                    1 <= i < len,
                    len == email@.len(),
                    email@[i as int] == 64,
                    forall|a: int| 0 <= a < len ==> !crate::bytestr::is_space(#[trigger] email@[a]),
                    forall|b: int| i + 2 <= b < j ==> email@[b] != 46,
                decreases len - j,
            {
                if email[j] == 46 {
                    return true;
                }
                j += 1;
            }
        }
        i += 1;
    }
    false
}

/// True when the bytes are a well-formed username: nonempty, made of
/// ASCII letters, digits, underscore and hyphen.
pub open spec fn is_valid_username(s: Seq<u8>) -> bool {
    s.len() > 0 && forall|i: int| 0 <= i < s.len() ==> is_word_byte(#[trigger] s[i])
}

/// Checks the username shape.
pub fn validate_username(username: &[u8]) -> (r: bool)
    ensures
        r == is_valid_username(username@),
{
    if username.len() == 0 {
        return false;
    }
    let mut i: usize = 0;
    while i < username.len()
        invariant
            i <= username@.len(),
            forall|j: int| 0 <= j < i ==> is_word_byte(#[trigger] username@[j]),
        decreases username@.len() - i,
    {
        let b = username[i];
        if !((97 <= b && b <= 122) || (65 <= b && b <= 90) || (48 <= b && b <= 57) || b == 95
            || b == 45) {
            return false;
        }
        i += 1;
    }
    true
}

/// Decides a sign-up request from its input and what the store already
/// holds: the checks run in a fixed order and the first failure wins.
pub fn validate_sign_up(
    body: &PostSignUpBody,
    username_taken: bool,
    email_taken: bool,
) -> (r: Result<(), ApiError>)
    ensures
        !is_valid_username(body.username@) ==> r == Err::<(), ApiError>(ApiError::InvalidUsername),
        is_valid_username(body.username@) && !is_valid_email(body.email@) ==> r == Err::<
            (),
            ApiError,
        >(ApiError::InvalidEmail),
        (is_valid_username(body.username@) && is_valid_email(body.email@) && username_taken) ==> r
            == Err::<(), ApiError>(ApiError::UsernameAlreadyTaken),
        (is_valid_username(body.username@) && is_valid_email(body.email@) && !username_taken
            && email_taken) ==> r == Err::<(), ApiError>(ApiError::EmailAlreadyTaken),
        (is_valid_username(body.username@) && is_valid_email(body.email@) && !username_taken
            && !email_taken && body.password@.len() == 0) ==> r == Err::<(), ApiError>(
            ApiError::PasswordMustNotBeEmpty,
        ),
        (is_valid_username(body.username@) && is_valid_email(body.email@) && !username_taken
            && !email_taken && body.password@.len() > 0) ==> r is Ok,
{
    if !validate_username(body.username.as_slice()) {
        return Err(ApiError::InvalidUsername);
    }
    if !validate_email(body.email.as_slice()) {
        return Err(ApiError::InvalidEmail);
    }
    if username_taken {
        return Err(ApiError::UsernameAlreadyTaken);
    }
    if email_taken {
        return Err(ApiError::EmailAlreadyTaken);
    }
    if body.password.len() == 0 {
        return Err(ApiError::PasswordMustNotBeEmpty);
    }
    Ok(())
}

/// Decides a sign-in request once the store has been asked: a shaped
/// email is required, the account must exist, and the password must
/// verify against the stored hash.
pub fn validate_sign_in(
    body: &SignInBody,
    user_exists: bool,
    password_matches: bool,
) -> (r: Result<(), ApiError>)
    ensures
        !is_valid_email(body.email@) ==> r == Err::<(), ApiError>(ApiError::InvalidEmail),
        is_valid_email(body.email@) && !user_exists ==> r == Err::<(), ApiError>(
            ApiError::UserDoesNotExist,
        ),
        (is_valid_email(body.email@) && user_exists && !password_matches) ==> r == Err::<
            (),
            ApiError,
        >(ApiError::IncorrectPassword),
        (is_valid_email(body.email@) && user_exists && password_matches) ==> r is Ok,
{
    if !validate_email(body.email.as_slice()) {
        return Err(ApiError::InvalidEmail);
    }
    if !user_exists {
        return Err(ApiError::UserDoesNotExist);
    }
    if !password_matches {
        return Err(ApiError::IncorrectPassword);
    }
    Ok(())
}

} // verus!
