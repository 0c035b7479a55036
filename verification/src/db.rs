//! What the database collaborators hand over: the kinds of database that
//! can be reached, and the result of a query.

use vstd::prelude::*;

use crate::config::DatabaseProfile;
use crate::text::{
    decimal_text, lemma_decimal_times_ten, padded_decimal_text, push_decimal,
    push_padded_decimal, push_str_chars, str_equal, string_from_chars,
};

verus! {

/// The result of a query as it comes from a database.
#[derive(Clone, Debug)]
pub struct QueryResult {
    pub rows: Vec<Vec<String>>,
    pub columns: Vec<String>,
    pub rows_affected: usize,
}

/// The kinds of database that can be reached.
#[derive(Clone, Copy, Debug, PartialEq, Eq, Structural)]
pub enum DatabaseKind {
    PostgreSql,
    MySql,
}

/// A database type that stands for no kind of database.
#[derive(Clone, Debug)]
pub struct UnsupportedDatabase {
    pub db_type: String,
}

impl UnsupportedDatabase {
    /// The error in words.
    pub open spec fn message_text(&self) -> Seq<char> {
        "Unsupported database type: "@ + self.db_type@
    }

    /// The error in words.
    pub fn message(&self) -> (text: String)
        ensures
            text@ == self.message_text(),
    {
        let mut chars: Vec<char> = Vec::new();
        push_str_chars(&mut chars, "Unsupported database type: ");
        push_str_chars(&mut chars, self.db_type.as_str());
        string_from_chars(&chars)
    }
}

impl DatabaseKind {
    /// The kind that a profile's database type stands for.
    pub open spec fn named(db_type: Seq<char>) -> Option<DatabaseKind> {
        if db_type == "postgresql"@ {
            Some(DatabaseKind::PostgreSql)
        } else if db_type == "mysql"@ {
            Some(DatabaseKind::MySql)
        } else {
            None
        }
    }

    /// The kind that a profile's database type stands for.
    pub fn from_type(db_type: &str) -> (kind: Result<DatabaseKind, UnsupportedDatabase>)
        ensures
            match Self::named(db_type@) {
                Some(found) => kind matches Ok(k) && k == found,
                None => kind matches Err(error) && error.db_type@ == db_type@,
            },
    {
        if str_equal(db_type, "postgresql") {
            Ok(DatabaseKind::PostgreSql)
        } else if str_equal(db_type, "mysql") {
            Ok(DatabaseKind::MySql)
        } else {
            Err(UnsupportedDatabase { db_type: db_type.to_owned() })
        }
    }

    /// The database type that names the kind.
    pub open spec fn type_text(self) -> Seq<char> {
        match self {
            DatabaseKind::PostgreSql => "postgresql"@,
            DatabaseKind::MySql => "mysql"@,
        }
    }

    /// The database type that names the kind.
    pub fn db_type(&self) -> (name: &'static str)
        ensures
            name@ == self.type_text(),
    {
        match self {
            DatabaseKind::PostgreSql => "postgresql",
            DatabaseKind::MySql => "mysql",
        }
    }
}

/// The name of a kind stands for that kind.
pub proof fn lemma_type_text_named(kind: DatabaseKind)
    ensures
        DatabaseKind::named(kind.type_text()) == Some(kind),
{
    reveal_strlit("postgresql");
    reveal_strlit("mysql");
    assert("postgresql"@.len() == 10);
    assert("mysql"@.len() == 5);
}

/// The schema that is read where a profile names none.
pub open spec fn schema_text(profile: DatabaseProfile) -> Seq<char> {
    match profile.schema {
        Some(schema) => schema@,
        None => "public"@,
    }
}

/// The schema of a profile.
pub fn schema_name(profile: &DatabaseProfile) -> (schema: &str)
    ensures
        schema@ == schema_text(*profile),
{
    match &profile.schema {
        Some(schema) => schema.as_str(),
        None => "public",
    }
}

/// The parameters of a connection to PostgreSQL.
pub open spec fn connection_text(profile: DatabaseProfile) -> Seq<char> {
    "host="@ + profile.host@ + " port="@ + decimal_text(profile.port as nat) + " user="@
        + profile.user@ + " password="@ + profile.password@ + " dbname="@ + profile.database@
}

/// The parameters of a connection to PostgreSQL.
pub fn connection_string(profile: &DatabaseProfile) -> (text: String)
    ensures
        text@ == connection_text(*profile),
{
    let mut out: Vec<char> = Vec::new();
    push_str_chars(&mut out, "host=");
    push_str_chars(&mut out, profile.host.as_str());
    push_str_chars(&mut out, " port=");
    push_decimal(&mut out, profile.port as u64);
    push_str_chars(&mut out, " user=");
    push_str_chars(&mut out, profile.user.as_str());
    push_str_chars(&mut out, " password=");
    push_str_chars(&mut out, profile.password.as_str());
    push_str_chars(&mut out, " dbname=");
    push_str_chars(&mut out, profile.database.as_str());
    let text = string_from_chars(&out);
    assert(text@ =~= connection_text(*profile));
    text
}

/// A time limit in milliseconds, for a limit given in seconds.
pub open spec fn milliseconds_text(seconds: u64) -> Seq<char> {
    decimal_text(seconds as nat * 1000)
}

fn push_milliseconds(out: &mut Vec<char>, seconds: u64)
    ensures
        final(out)@ == old(out)@ + milliseconds_text(seconds),
{
    let ghost before = out@;
    push_decimal(out, seconds);
    if seconds > 0 {
        push_str_chars(out, "000");
        proof {
            reveal_strlit("000");
            let n = seconds as nat;
            lemma_decimal_times_ten(n);
            lemma_decimal_times_ten(n * 10);
            lemma_decimal_times_ten(n * 100);
            assert(n * 10 * 10 == n * 100);
            assert(n * 100 * 10 == n * 1000);
            assert(out@ =~= before + milliseconds_text(seconds));
        }
    }
}

/// The statement that limits the time of the statements that follow, for
/// a database of the kind.
pub open spec fn timeout_statement_text(kind: DatabaseKind, seconds: u64) -> Seq<char> {
    match kind {
        DatabaseKind::PostgreSql => "SET statement_timeout = "@ + milliseconds_text(seconds),
        DatabaseKind::MySql => "SET max_execution_time = "@ + milliseconds_text(seconds),
    }
}

/// The statement that limits the time of the statements that follow.
pub fn timeout_statement(kind: DatabaseKind, seconds: u64) -> (sql: String)
    ensures
        sql@ == timeout_statement_text(kind, seconds),
{
    let mut out: Vec<char> = Vec::new();
    match kind {
        DatabaseKind::PostgreSql => {
            push_str_chars(&mut out, "SET statement_timeout = ");
        },
        DatabaseKind::MySql => {
            push_str_chars(&mut out, "SET max_execution_time = ");
        },
    }
    push_milliseconds(&mut out, seconds);
    string_from_chars(&out)
}

/// A date and time of MySQL as text: the year in four digits at least, the
/// other parts in two, the microseconds in six.
pub open spec fn datetime_text(
    year: u16,
    month: u8,
    day: u8,
    hour: u8,
    minute: u8,
    second: u8,
    microseconds: u32,
) -> Seq<char> {
    padded_decimal_text(year as nat, 4) + "-"@ + padded_decimal_text(month as nat, 2) + "-"@
        + padded_decimal_text(day as nat, 2) + " "@ + padded_decimal_text(hour as nat, 2) + ":"@
        + padded_decimal_text(minute as nat, 2) + ":"@ + padded_decimal_text(second as nat, 2)
        + "."@ + padded_decimal_text(microseconds as nat, 6)
}

/// A date and time of MySQL as text.
pub fn format_datetime(
    year: u16,
    month: u8,
    day: u8,
    hour: u8,
    minute: u8,
    second: u8,
    microseconds: u32,
) -> (text: String)
    ensures
        text@ == datetime_text(year, month, day, hour, minute, second, microseconds),
{
    let mut out: Vec<char> = Vec::new();
    push_padded_decimal(&mut out, year as u64, 4);
    push_str_chars(&mut out, "-");
    push_padded_decimal(&mut out, month as u64, 2);
    push_str_chars(&mut out, "-");
    push_padded_decimal(&mut out, day as u64, 2);
    push_str_chars(&mut out, " ");
    push_padded_decimal(&mut out, hour as u64, 2);
    push_str_chars(&mut out, ":");
    push_padded_decimal(&mut out, minute as u64, 2);
    push_str_chars(&mut out, ":");
    push_padded_decimal(&mut out, second as u64, 2);
    push_str_chars(&mut out, ".");
    push_padded_decimal(&mut out, microseconds as u64, 6);
    let text = string_from_chars(&out);
    assert(text@ =~= datetime_text(year, month, day, hour, minute, second, microseconds));
    text
}

/// A span of time of MySQL as text: a sign where it is negative, a colon,
/// the hours with the days counted in, the minutes, the seconds and the
/// microseconds.
pub open spec fn duration_text(
    negative: bool,
    days: u32,
    hours: u8,
    minutes: u8,
    seconds: u8,
    microseconds: u32,
) -> Seq<char> {
    (if negative {
        "-"@
    } else {
        ""@
    }) + ":"@ + padded_decimal_text(days as nat * 24 + hours as nat, 2) + ":"@
        + padded_decimal_text(minutes as nat, 2) + ":"@ + padded_decimal_text(seconds as nat, 2)
        + "."@ + padded_decimal_text(microseconds as nat, 6)
}

/// A span of time of MySQL as text.
pub fn format_duration(
    negative: bool,
    days: u32,
    hours: u8,
    minutes: u8,
    seconds: u8,
    microseconds: u32,
) -> (text: String)
    ensures
        text@ == duration_text(negative, days, hours, minutes, seconds, microseconds),
{
    let mut out: Vec<char> = Vec::new();
    if negative {
        push_str_chars(&mut out, "-");
    } else {
        push_str_chars(&mut out, "");
    }
    push_str_chars(&mut out, ":");
    let total_hours: u64 = days as u64 * 24 + hours as u64;
    push_padded_decimal(&mut out, total_hours, 2);
    push_str_chars(&mut out, ":");
    push_padded_decimal(&mut out, minutes as u64, 2);
    push_str_chars(&mut out, ":");
    push_padded_decimal(&mut out, seconds as u64, 2);
    push_str_chars(&mut out, ".");
    push_padded_decimal(&mut out, microseconds as u64, 6);
    let text = string_from_chars(&out);
    assert(text@ =~= duration_text(negative, days, hours, minutes, seconds, microseconds));
    text
}

} // verus!
