//! The read-only check on SQL that post-processor plugins may run.

use vstd::prelude::*;
use crate::text::{chars_of, has_prefix, str_has_char, str_starts_with, string_of, to_uppercase, unicode_uppercase};
use crate::words::{trim, trim_chars};

verus! {

#[verifier::external_type_specification]
#[verifier::external_body]
pub struct ExConnection(rusqlite::Connection);

/// The text without trailing copies of `c`.
pub open spec fn trim_end_char(s: Seq<char>, c: char) -> Seq<char>
    decreases s.len(),
{
    if s.len() > 0 && s.last() == c {
        trim_end_char(s.drop_last(), c)
    } else {
        s
    }
}

/// The statement a SQL text stands for, or `None` when it is refused
/// before SQLite sees it: empty after trimming, more than one statement
/// (a `;` before the trailing ones), or beginning, in upper case, with
/// `ATTACH`, `DETACH` or `PRAGMA`.
pub open spec fn sql_statement(sql: Seq<char>) -> Option<Seq<char>> {
    let t = trim(sql);
    let u = unicode_uppercase(t);
    if t.len() == 0 {
        None
    } else if trim(trim_end_char(t, ';')).contains(';') {
        None
    } else if has_prefix(u, "ATTACH"@) || has_prefix(u, "DETACH"@) || has_prefix(u, "PRAGMA"@) {
        None
    } else {
        Some(t)
    }
}

/// The statement to hand to SQLite, or `None` when the text is refused
/// before that.
pub fn sql_statement_of(sql: &str) -> (r: Option<String>)
    ensures
        opt_str(r) == sql_statement(sql@),
{
    let cs = chars_of(sql);
    let t = trim_chars(&cs);
    if t.len() == 0 {
        return None;
    }
    let mut end: usize = t.len();
    assert(t@.take(end as int) =~= t@);
    while end > 0 && t[end - 1] == ';'
        invariant
            end <= t@.len(),
            trim_end_char(t@, ';') == trim_end_char(t@.take(end as int), ';'),
        decreases end,
    {
        assert(t@.take(end as int).drop_last() =~= t@.take(end - 1));
        end = end - 1;
    }
    let mut head: Vec<char> = Vec::new();
    let mut k: usize = 0;
    while k < end
        invariant
            k <= end <= t@.len(),
            head@ == t@.take(k as int),
        decreases end - k,
    {
        head.push(t[k]);
        k = k + 1;
        assert(t@.take(k as int) =~= t@.take(k - 1).push(t@[k - 1]));
    }
    let inner = trim_chars(&head);
    let inner_s = string_of(&inner);
    if str_has_char(inner_s.as_str(), ';') {
        return None;
    }
    let ts = string_of(&t);
    let upper = to_uppercase(ts.as_str());
    if str_starts_with(upper.as_str(), "ATTACH") || str_starts_with(upper.as_str(), "DETACH")
        || str_starts_with(upper.as_str(), "PRAGMA") {
        return None;
    }
    Some(ts)
}

/// The text of an optional string.
pub open spec fn opt_str(s: Option<String>) -> Option<Seq<char>> {
    match s {
        Some(x) => Some(x@),
        None => None,
    }
}

/// Prepares the statement with `rusqlite::Connection::prepare` and asks
/// `Statement::readonly`; a statement that does not prepare is not
/// read-only. What SQLite answers depends on the database's schema, so
/// nothing is stated of it.
#[verifier::external_body]
fn prepared_readonly(conn: &rusqlite::Connection, statement: &str) -> (r: bool)
{
    match conn.prepare(statement) {
        Ok(stmt) => stmt.readonly(),
        Err(_) => false,
    }
}

/// Validate that a SQL statement is read-only: the text must pass the
/// checks of `sql_statement`, and SQLite must call the prepared statement
/// read-only.
pub fn validate_read_only_sql(conn: &rusqlite::Connection, sql: &str) -> (r: bool)
    ensures
        sql_statement(sql@) is None ==> !r,
        r ==> sql_statement(sql@) is Some,
{
    match sql_statement_of(sql) {
        Some(t) => prepared_readonly(conn, t.as_str()),
        None => false,
    }
}

} // verus!
