use vstd::prelude::*;

use crate::model::Session;
use crate::text::chars_of;

verus! {

// ---- routing ----

/// What a request asks for, by method and path.
#[derive(Debug, Clone, Copy, PartialEq, Eq, Structural)]
pub enum Route {
    Signup,
    Login,
    Logout,
    GetNote,
    UpdateNote,
    Health,
    Preflight,
    Frontend,
    NotFound,
}

/// The route of a request with method `m` and path `p`.
pub open spec fn route_of(m: Seq<char>, p: Seq<char>) -> Route {
    if m == "POST"@ && p == "/api/signup"@ {
        Route::Signup
    } else if m == "POST"@ && p == "/api/login"@ {
        Route::Login
    } else if m == "POST"@ && p == "/api/logout"@ {
        Route::Logout
    } else if m == "GET"@ && p == "/api/note"@ {
        Route::GetNote
    } else if m == "PUT"@ && p == "/api/note"@ {
        Route::UpdateNote
    } else if m == "GET"@ && p == "/api/health"@ {
        Route::Health
    } else if m == "OPTIONS"@ {
        Route::Preflight
    } else if m == "GET"@ && (p == "/"@ || p == "/index.html"@) {
        Route::Frontend
    } else {
        Route::NotFound
    }
}

fn same_text(a: &str, b: &str) -> (r: bool)
    ensures
        r == (a@ == b@),
{
    let x = chars_of(a);
    let y = chars_of(b);
    if x.len() != y.len() {
        return false;
    }
    let mut i: usize = 0;
    while i < x.len()
        invariant
            i <= x@.len() == y@.len(),
            x@ == a@,
            y@ == b@,
            forall|j: int| 0 <= j < i ==> x@[j] == y@[j],
        decreases x@.len() - i,
    {
        if x[i] != y[i] {
            return false;
        }
        i = i + 1;
    }
    assert(x@ =~= y@);
    true
}

/// Dispatches requests to their handlers.
pub struct Router;

impl Router {
    /// The route of a request with the given method name and path.
    pub fn resolve(method: &str, path: &str) -> (r: Route)
        ensures
            r == route_of(method@, path@),
    {
        let post = same_text(method, "POST");
        let get = same_text(method, "GET");
        if post && same_text(path, "/api/signup") {
            Route::Signup
        } else if post && same_text(path, "/api/login") {
            Route::Login
        } else if post && same_text(path, "/api/logout") {
            Route::Logout
        } else if get && same_text(path, "/api/note") {
            Route::GetNote
        } else if same_text(method, "PUT") && same_text(path, "/api/note") {
            Route::UpdateNote
        } else if get && same_text(path, "/api/health") {
            Route::Health
        } else if same_text(method, "OPTIONS") {
            Route::Preflight
        } else if get && (same_text(path, "/") || same_text(path, "/index.html")) {
            Route::Frontend
        } else {
            Route::NotFound
        }
    }
}

// ---- sessions ----

/// The instant an RFC 3339 text names, as whole seconds since the Unix epoch
/// and nanoseconds past them; `None` where the text is not RFC 3339.
pub uninterp spec fn rfc3339_instant(s: Seq<char>) -> Option<(i64, u32)>;

/// Relies on `chrono::DateTime::parse_from_rfc3339`, read through `timestamp`
/// and `timestamp_subsec_nanos`.
#[verifier::external_body]
fn parse_instant(s: &str) -> (r: Option<(i64, u32)>)
    ensures
        r == rfc3339_instant(s@),
{
    match chrono::DateTime::parse_from_rfc3339(s) {
        Ok(d) => Some((d.timestamp(), d.timestamp_subsec_nanos())),
        Err(_) => None,
    }
}

/// Relies on `chrono::Utc::now`: the current instant, in the form `parse_instant` gives.
#[verifier::external_body]
fn current_instant() -> (r: (i64, u32)) {
    let d = chrono::Utc::now();
    (d.timestamp(), d.timestamp_subsec_nanos())
}

/// The state of a session at some instant.
#[derive(Debug, Clone, Copy, PartialEq, Eq, Structural)]
pub enum SessionCheck {
    Valid,
    Expired,
    Unreadable,
}

/// Instant `a` comes before instant `b`.
pub open spec fn before(a: (i64, u32), b: (i64, u32)) -> bool {
    a.0 < b.0 || (a.0 == b.0 && a.1 < b.1)
}

/// The state at instant `now` of a session whose expiry reads as `expires`: it
/// has expired once its expiry lies before `now`.
pub open spec fn status_of(expires: Option<(i64, u32)>, now: (i64, u32)) -> SessionCheck {
    match expires {
        None => SessionCheck::Unreadable,
        Some(e) => if before(e, now) {
            SessionCheck::Expired
        } else {
            SessionCheck::Valid
        },
    }
}

/// The state of a session whose expiry reads as `expires`, at instant `now`.
pub fn expiry_status(expires: Option<(i64, u32)>, now: (i64, u32)) -> (r: SessionCheck)
    ensures
        r == status_of(expires, now),
{
    match expires {
        None => SessionCheck::Unreadable,
        Some(e) => {
            if e.0 < now.0 || (e.0 == now.0 && e.1 < now.1) {
                SessionCheck::Expired
            } else {
                SessionCheck::Valid
            }
        },
    }
}

/// The state of `session` at the instant the clock is read.
pub fn session_status(session: &Session) -> (r: SessionCheck)
    ensures
        exists|now: (i64, u32)| r == status_of(rfc3339_instant(session.expires_at@), now),
        rfc3339_instant(session.expires_at@) is None <==> r == SessionCheck::Unreadable,
{
    let expires = parse_instant(session.expires_at.as_str());
    let now = current_instant();
    let r = expiry_status(expires, now);
    assert(r == status_of(rfc3339_instant(session.expires_at@), now));
    r
}

// ---- tokens ----

/// The URL-safe base64 alphabet.
pub open spec fn b64_alphabet() -> Seq<char> {
    seq![
        'A', 'B', 'C', 'D', 'E', 'F', 'G', 'H', 'I', 'J', 'K', 'L', 'M', 'N', 'O', 'P',
        'Q', 'R', 'S', 'T', 'U', 'V', 'W', 'X', 'Y', 'Z', 'a', 'b', 'c', 'd', 'e', 'f',
        'g', 'h', 'i', 'j', 'k', 'l', 'm', 'n', 'o', 'p', 'q', 'r', 's', 't', 'u', 'v',
        'w', 'x', 'y', 'z', '0', '1', '2', '3', '4', '5', '6', '7', '8', '9', '-', '_',
    ]
}

pub open spec fn b64_digit(n: int) -> char {
    b64_alphabet()[n]
}

/// URL-safe base64 without padding: four digits per three bytes, and two or
/// three digits for a last group of one or two bytes.
pub open spec fn base64_url_of(b: Seq<u8>) -> Seq<char>
    decreases b.len(),
{
    if b.len() == 0 {
        seq![]
    } else if b.len() == 1 {
        seq![b64_digit(b[0] as int / 4), b64_digit((b[0] as int % 4) * 16)]
    } else if b.len() == 2 {
        seq![
            b64_digit(b[0] as int / 4),
            b64_digit((b[0] as int % 4) * 16 + b[1] as int / 16),
            b64_digit((b[1] as int % 16) * 4),
        ]
    } else {
        seq![
            b64_digit(b[0] as int / 4),
            b64_digit((b[0] as int % 4) * 16 + b[1] as int / 16),
            b64_digit((b[1] as int % 16) * 4 + b[2] as int / 64),
            b64_digit(b[2] as int % 64),
        ] + base64_url_of(b.subrange(3, b.len() as int))
    }
}

pub proof fn lemma_base64_len(b: Seq<u8>)
    ensures
        base64_url_of(b).len() == 4 * (b.len() / 3) + (if b.len() % 3 == 0 {
            0
        } else {
            b.len() % 3 + 1
        }),
    decreases b.len(),
{
    if b.len() >= 3 {
        lemma_base64_len(b.subrange(3, b.len() as int));
    }
}

/// Relies on `base64`'s `URL_SAFE_NO_PAD` engine and its `encode`.
#[verifier::external_body]
fn base64_url(b: &Vec<u8>) -> (r: String)
    ensures
        r@ == base64_url_of(b@),
{
    base64::Engine::encode(&base64::engine::general_purpose::URL_SAFE_NO_PAD, b)
}

/// Number of random bytes in a session token.
pub const TOKEN_BYTES: usize = 32;

/// Relies on `rand::thread_rng` and `RngCore::fill_bytes`: `n` random bytes.
#[verifier::external_body]
fn random_bytes(n: usize) -> (r: Vec<u8>)
    ensures
        r@.len() == n,
{
    let mut bytes = vec![0u8; n];
    rand::RngCore::fill_bytes(&mut rand::thread_rng(), &mut bytes);
    bytes
}

/// A fresh session token: 32 random bytes in URL-safe base64, 43 digits.
pub fn generate_token() -> (r: String)
    ensures
        exists|b: Seq<u8>| b.len() == TOKEN_BYTES && r@ == base64_url_of(b),
        r@.len() == 43,
{
    let bytes = random_bytes(TOKEN_BYTES);
    let token = base64_url(&bytes);
    proof {
        lemma_base64_len(bytes@);
    }
    assert(bytes@.len() == TOKEN_BYTES && token@ == base64_url_of(bytes@));
    token
}

} // verus!
