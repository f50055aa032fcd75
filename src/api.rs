use vstd::prelude::*;
use vstd::utf8::encode_utf8;

use crate::model::Session;
use crate::text::{chars_of, string_of_range};

verus! {

/// Body of a signup request.
pub struct SignupRequest {
    pub email: String,
    pub password: String,
}

/// Body of a login request.
pub struct LoginRequest {
    pub email: String,
    pub password: String,
}

/// Answer to a successful signup or login.
pub struct AuthResponse {
    pub token: String,
}

/// What a client sees of its note.
pub struct NoteResponse {
    pub id: String,
    pub content: String,
    pub updated_at: String,
}

/// The account a request was authenticated as.
pub struct AuthInfo {
    pub user_id: String,
}

/// Body of a note update.
pub struct UpdateNoteRequest {
    pub content: String,
}

/// Body of an error answer.
pub struct ErrorResponse {
    pub error: String,
}

/// Why a signup request is refused before any account lookup.
#[derive(Debug, Clone, Copy, PartialEq, Eq, Structural)]
pub enum SignupRejection {
    InvalidEmail,
    PasswordTooShort,
}

impl SignupRejection {
    /// The message shown to the client.
    pub fn message(&self) -> (r: &'static str)
        ensures
            r@ == (match *self {
                SignupRejection::InvalidEmail => "Invalid email"@,
                SignupRejection::PasswordTooShort => "Password must be at least 8 characters"@,
            }),
    {
        match self {
            SignupRejection::InvalidEmail => "Invalid email",
            SignupRejection::PasswordTooShort => "Password must be at least 8 characters",
        }
    }
}

/// An address is accepted when it is not empty and holds an `@`.
pub open spec fn email_ok(e: Seq<char>) -> bool {
    e.len() > 0 && e.contains('@')
}

/// Length of a text in UTF-8 bytes, as `str::len` gives it.
pub open spec fn byte_len(s: Seq<char>) -> usize {
    encode_utf8(s).len() as usize
}

/// Smallest accepted password length, in UTF-8 bytes.
pub const MIN_PASSWORD_BYTES: usize = 8;

fn contains_char(v: &Vec<char>, c: char) -> (r: bool)
    ensures
        r == v@.contains(c),
{
    let mut i: usize = 0;
    while i < v.len()
        invariant
            i <= v@.len(),
            forall|j: int| 0 <= j < i ==> v@[j] != c,
        decreases v@.len() - i,
    {
        if v[i] == c {
            return true;
        }
        i = i + 1;
    }
    false
}

/// Checks a signup request: the address first, then the password length.
pub fn validate_signup(req: &SignupRequest) -> (r: Result<(), SignupRejection>)
    ensures
        !email_ok(req.email@) ==> r == Err::<(), _>(SignupRejection::InvalidEmail),
        email_ok(req.email@) && byte_len(req.password@) < MIN_PASSWORD_BYTES ==> r == Err::<
            (),
            _,
        >(SignupRejection::PasswordTooShort),
        email_ok(req.email@) && byte_len(req.password@) >= MIN_PASSWORD_BYTES ==> r is Ok,
{
    let email = chars_of(req.email.as_str());
    if email.len() == 0 || !contains_char(&email, '@') {
        return Err(SignupRejection::InvalidEmail);
    }
    if req.password.as_str().len() < MIN_PASSWORD_BYTES {
        return Err(SignupRejection::PasswordTooShort);
    }
    Ok(())
}

/// The prefix of an `Authorization` header that carries a session token.
pub open spec fn bearer_prefix() -> Seq<char> {
    seq!['B', 'e', 'a', 'r', 'e', 'r', ' ']
}

/// The token of an `Authorization` header of the form `Bearer <token>`.
pub open spec fn bearer_of(h: Seq<char>) -> Option<Seq<char>> {
    if h.len() >= 7 && h.subrange(0, 7) == bearer_prefix() {
        Some(h.subrange(7, h.len() as int))
    } else {
        None
    }
}

/// The token that an optional `Authorization` header carries.
pub open spec fn token_of(header: Option<&str>) -> Option<Seq<char>> {
    match header {
        Some(h) => bearer_of(h@),
        None => None,
    }
}

/// The session token that an `Authorization` header carries, if it has one.
pub fn bearer_token(header: Option<&str>) -> (r: Option<String>)
    ensures
        r is Some <==> token_of(header) is Some,
        r matches Some(s) ==> token_of(header) == Some(s@),
{
    match header {
        None => None,
        Some(h) => {
            let v = chars_of(h);
            if v.len() < 7 {
                assert(bearer_of(h@) is None);
                return None;
            }
            let prefix = ['B', 'e', 'a', 'r', 'e', 'r', ' '];
            let mut i: usize = 0;
            while i < 7
                invariant
                    i <= 7 <= v@.len(),
                    v@ == h@,
                    header == Some(h),
                    prefix@ == bearer_prefix(),
                    forall|j: int| 0 <= j < i ==> v@[j] == bearer_prefix()[j],
                decreases 7 - i,
            {
                if v[i] != prefix[i] {
                    assert(v@.subrange(0, 7)[i as int] != bearer_prefix()[i as int]);
                    assert(v@.subrange(0, 7) != bearer_prefix());
                    assert(bearer_of(h@) is None);
                    return None;
                }
                i = i + 1;
            }
            assert(v@.subrange(0, 7) =~= bearer_prefix());
            Some(string_of_range(&v, 7, v.len()))
        },
    }
}

} // verus!
