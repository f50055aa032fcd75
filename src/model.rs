use vstd::prelude::*;

verus! {

/// Settings of the service.
pub struct Config {
    pub port: u16,
    pub host: String,
    pub database_url: String,
    pub allowed_origin: String,
}

pub open spec fn or_default(v: Option<String>, d: Seq<char>) -> Seq<char> {
    match v {
        Some(s) => s@,
        None => d,
    }
}

fn text_or(v: Option<String>, d: &str) -> (r: String)
    ensures
        r@ == or_default(v, d@),
{
    match v {
        Some(s) => s,
        None => d.to_owned(),
    }
}

impl Config {
    /// Settings from the values that were given, each missing one taken as its
    /// default: port 3000, host `0.0.0.0`, database `trame.db`, any origin (`*`).
    pub fn from_values(
        port: Option<u16>,
        host: Option<String>,
        database_url: Option<String>,
        allowed_origin: Option<String>,
    ) -> (r: Config)
        ensures
            r.port == (match port {
                Some(p) => p,
                None => 3000u16,
            }),
            r.host@ == or_default(host, "0.0.0.0"@),
            r.database_url@ == or_default(database_url, "trame.db"@),
            r.allowed_origin@ == or_default(allowed_origin, "*"@),
    {
        Config {
            port: match port {
                Some(p) => p,
                None => 3000,
            },
            host: text_or(host, "0.0.0.0"),
            database_url: text_or(database_url, "trame.db"),
            allowed_origin: text_or(allowed_origin, "*"),
        }
    }
}

/// A registered account.
#[derive(Debug, Clone)]
pub struct User {
    pub id: String,
    pub email: String,
    pub password_hash: String,
    pub created_at: String,
}

/// The one document of an account.
#[derive(Debug, Clone)]
pub struct Note {
    pub id: String,
    pub user_id: String,
    pub content: String,
    pub created_at: String,
    pub updated_at: String,
}

/// A login session, valid until `expires_at`.
#[derive(Debug, Clone)]
pub struct Session {
    pub token: String,
    pub user_id: String,
    pub expires_at: String,
}

/// A stored block of a note, at position `sequence` among its siblings.
#[derive(Debug, Clone)]
pub struct Chunk {
    pub id: String,
    pub note_id: String,
    pub sequence: i32,
    pub chunk_type: String,
    pub heading_level: Option<i32>,
    pub content: String,
    pub content_hash: String,
    pub start_offset: i32,
    pub end_offset: i32,
    pub created_at: String,
    pub updated_at: String,
}

} // verus!
