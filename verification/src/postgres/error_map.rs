//! Backend error messages as PostgreSQL errors.
use crate::text::{chars_of, contains, lower_chars};
use vstd::prelude::*;

verus! {

/// A PostgreSQL error: SQLSTATE and message.
#[derive(Debug, Clone)]
pub struct PgError {
    /// Five characters, such as `23505`.
    pub sqlstate: &'static str,
    /// The backend's text.
    pub message: String,
}

/// The SQLSTATE of a message.
pub open spec fn state_of(msg: Seq<char>) -> Seq<char> {
    if crate::session::error_map::says_duplicate(msg) {
        "23505"@
    } else if crate::session::error_map::says(msg, "foreign key constraint failed"@) {
        "23503"@
    } else if crate::session::error_map::says(msg, "not null constraint failed"@) {
        "23502"@
    } else if crate::session::error_map::says(msg, "check constraint failed"@) {
        "23514"@
    } else if crate::session::error_map::says_locked(msg) {
        "55P03"@
    } else if crate::session::error_map::says_readonly(msg) {
        "25006"@
    } else {
        "XX000"@
    }
}

/// The error of a backend's message. A message that says nothing known is an
/// internal error.
#[must_use]
pub fn classify(err_msg: &str) -> (r: PgError)
    ensures
        r.sqlstate@ == state_of(err_msg@),
        r.message@ == err_msg@,
{
    let chars = chars_of(err_msg);
    let low = lower_chars(chars.as_slice());
    let l = low.as_slice();
    let message = err_msg.to_owned();
    if contains(l, "unique constraint failed") || contains(l, "primary key constraint failed") {
        return PgError { sqlstate: "23505", message };
    }
    if contains(l, "foreign key constraint failed") {
        return PgError { sqlstate: "23503", message };
    }
    if contains(l, "not null constraint failed") {
        return PgError { sqlstate: "23502", message };
    }
    if contains(l, "check constraint failed") {
        return PgError { sqlstate: "23514", message };
    }
    if contains(l, "database is locked") || contains(l, "database table is locked") || contains(
        l,
        "sqlite_busy",
    ) || contains(l, "sqlite_locked") {
        return PgError { sqlstate: "55P03", message };
    }
    if contains(l, "attempt to write a readonly database") || contains(l, "readonly database")
        || contains(l, "sqlite_readonly") {
        return PgError { sqlstate: "25006", message };
    }
    PgError { sqlstate: "XX000", message }
}

/// Every SQLSTATE that is reported has five characters.
pub proof fn law_sqlstate_has_five_characters(msg: Seq<char>)
    ensures
        state_of(msg).len() == 5,
{
    reveal_strlit("23505");
    reveal_strlit("23503");
    reveal_strlit("23502");
    reveal_strlit("23514");
    reveal_strlit("55P03");
    reveal_strlit("25006");
    reveal_strlit("XX000");
}

/// The SQLSTATE goes by what the message says, in whatever case and wherever
/// it says it: of several causes the first of these counts, and a message
/// that says none of them is an internal error. The message is the
/// backend's.
pub proof fn law_state_follows_the_words(err_msg: &str, r: PgError)
    requires
        call_ensures(classify, (err_msg,), r),
    ensures
        r.message@ == err_msg@,
        ({
            let m = err_msg@;
            let duplicate = crate::text_laws::says_words(m, "unique constraint failed"@)
                || crate::text_laws::says_words(m, "primary key constraint failed"@);
            let foreign = crate::text_laws::says_words(m, "foreign key constraint failed"@);
            let null = crate::text_laws::says_words(m, "not null constraint failed"@);
            let check = crate::text_laws::says_words(m, "check constraint failed"@);
            let locked = crate::text_laws::says_words(m, "database is locked"@)
                || crate::text_laws::says_words(m, "database table is locked"@)
                || crate::text_laws::says_words(m, "sqlite_busy"@)
                || crate::text_laws::says_words(m, "sqlite_locked"@);
            let read_only = crate::text_laws::says_words(m, "attempt to write a readonly database"@)
                || crate::text_laws::says_words(m, "readonly database"@)
                || crate::text_laws::says_words(m, "sqlite_readonly"@);
            &&& duplicate ==> r.sqlstate@ == "23505"@
            &&& foreign && !duplicate ==> r.sqlstate@ == "23503"@
            &&& null && !duplicate && !foreign ==> r.sqlstate@ == "23502"@
            &&& check && !duplicate && !foreign && !null ==> r.sqlstate@ == "23514"@
            &&& locked && !duplicate && !foreign && !null && !check ==> r.sqlstate@ == "55P03"@
            &&& read_only && !duplicate && !foreign && !null && !check && !locked ==> r.sqlstate@
                == "25006"@
            &&& !duplicate && !foreign && !null && !check && !locked && !read_only
                ==> r.sqlstate@ == "XX000"@
        }),
{
    crate::text_laws::lemma_occurs_lower(err_msg@, "unique constraint failed"@);
    crate::text_laws::lemma_occurs_lower(err_msg@, "primary key constraint failed"@);
    crate::text_laws::lemma_occurs_lower(err_msg@, "foreign key constraint failed"@);
    crate::text_laws::lemma_occurs_lower(err_msg@, "not null constraint failed"@);
    crate::text_laws::lemma_occurs_lower(err_msg@, "check constraint failed"@);
    crate::text_laws::lemma_occurs_lower(err_msg@, "database is locked"@);
    crate::text_laws::lemma_occurs_lower(err_msg@, "database table is locked"@);
    crate::text_laws::lemma_occurs_lower(err_msg@, "sqlite_busy"@);
    crate::text_laws::lemma_occurs_lower(err_msg@, "sqlite_locked"@);
    crate::text_laws::lemma_occurs_lower(err_msg@, "attempt to write a readonly database"@);
    crate::text_laws::lemma_occurs_lower(err_msg@, "readonly database"@);
    crate::text_laws::lemma_occurs_lower(err_msg@, "sqlite_readonly"@);
}

} // verus!
