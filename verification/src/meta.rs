//! The app's own records: saved connections, saved queries and the query
//! history, and the rules the metadata store keeps for them.

use vstd::prelude::*;
use crate::text::{chars_of, contains, seq_eq, vec_contains};

verus! {

/// A saved database connection. The password is never part of it.
#[derive(Debug, Clone)]
pub struct Connection {
    pub id: String,
    pub name: String,
    /// the engine key the connection is opened by
    pub engine: String,
    pub host: Option<String>,
    pub port: Option<i64>,
    /// database name for a server engine, or the file path for sqlite
    pub database: String,
    pub username: Option<String>,
}

/// A named statement saved for one connection.
#[derive(Debug, Clone)]
pub struct SavedQuery {
    pub id: String,
    pub connection_id: String,
    pub name: String,
    pub sql: String,
}

/// One statement that ran.
#[derive(Debug, Clone)]
pub struct HistoryEntry {
    pub id: i64,
    pub sql: String,
    /// UTC, "YYYY-MM-DD HH:MM:SS" as SQLite's datetime() writes it
    pub ran_at: String,
}

/// How many statements the history keeps per connection.
pub const HISTORY_LIMIT: i64 = 50;

/// A statement goes into the history unless it is the one most recently
/// recorded for the connection: re-running it does not stack up copies.
pub open spec fn should_record_spec(last: Option<Seq<char>>, sql: Seq<char>) -> bool {
    last != Some(sql)
}

/// Whether `sql` is to be recorded, given the connection's latest entry.
pub fn should_record(last: Option<&str>, sql: &str) -> (r: bool)
    ensures
        r == should_record_spec(
            match last {
                Some(l) => Some(l@),
                None => None,
            },
            sql@,
        ),
{
    match last {
        Some(l) => {
            let a = chars_of(l);
            let b = chars_of(sql);
            !seq_eq(a.as_slice(), b.as_slice())
        },
        None => true,
    }
}

/// The connections table of an older install still carries the CHECK that
/// limited engines to the first two, and has to be rebuilt without it.
pub open spec fn needs_engine_migration_spec(ddl: Option<Seq<char>>) -> bool {
    match ddl {
        Some(t) => contains(t, "CHECK(engine IN"@),
        None => false,
    }
}

/// Whether the stored DDL of the connections table still holds the old
/// engine CHECK.
pub fn needs_engine_migration(ddl: Option<&str>) -> (r: bool)
    ensures
        r == needs_engine_migration_spec(
            match ddl {
                Some(t) => Some(t@),
                None => None,
            },
        ),
{
    match ddl {
        Some(t) => {
            let c = chars_of(t);
            let p = chars_of("CHECK(engine IN");
            vec_contains(c.as_slice(), p.as_slice())
        },
        None => false,
    }
}

} // verus!
