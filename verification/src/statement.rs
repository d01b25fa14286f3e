//! SQL statements as the translator hands them over.
use crate::text::{starts_with, trimmed_upper};
use vstd::prelude::*;

verus! {

/// What kind of statement a SQL text is, by its first word.
#[derive(Clone, Copy, Debug, PartialEq, Eq, Structural)]
pub enum StatementKind {
    /// Returns rows.
    Query,
    /// Changes rows.
    Mutation,
    /// Changes the schema.
    Ddl,
    /// Controls a transaction.
    Transaction,
    /// Anything else.
    Other,
}

/// One statement of SQLite's dialect that a client's statement became.
#[derive(Debug)]
pub enum Translated {
    /// Nothing is to be run.
    Noop,
    /// A query of metadata, as SQL.
    Metadata(String),
    /// SQL to run.
    Sql(String),
}

/// What a statement that controls a transaction does, by its first letters.
#[derive(Clone, Copy, Debug, PartialEq, Eq, Structural)]
pub enum TransactionVerb {
    Begin,
    Commit,
    Rollback,
    Other,
}

pub open spec fn verb_of(sql: Seq<char>) -> TransactionVerb {
    let u = crate::text::upper(crate::text::trim(sql));
    if crate::text::begins_with(u, "BEGIN"@) || crate::text::begins_with(u, "START"@) {
        TransactionVerb::Begin
    } else if crate::text::begins_with(u, "COMMIT"@) {
        TransactionVerb::Commit
    } else if crate::text::begins_with(u, "ROLLBACK"@) {
        TransactionVerb::Rollback
    } else {
        TransactionVerb::Other
    }
}

/// What a statement that controls a transaction does.
pub fn transaction_verb(sql: &str) -> (r: TransactionVerb)
    ensures
        r == verb_of(sql@),
{
    let up = trimmed_upper(sql);
    let u = up.as_slice();
    if starts_with(u, "BEGIN") || starts_with(u, "START") {
        TransactionVerb::Begin
    } else if starts_with(u, "COMMIT") {
        TransactionVerb::Commit
    } else if starts_with(u, "ROLLBACK") {
        TransactionVerb::Rollback
    } else {
        TransactionVerb::Other
    }
}

/// Transaction control goes by the first letters, in whatever case and behind
/// whatever white space: `BEGIN` and `START` begin, `COMMIT` commits and
/// `ROLLBACK` rolls back, and nothing else does.
pub proof fn law_verb_follows_the_words(sql: &str, r: TransactionVerb)
    requires
        call_ensures(transaction_verb, (sql,), r),
    ensures
        r == TransactionVerb::Begin <==> exists|n: int|
            crate::text_laws::leads(sql@, n, "BEGIN"@) || crate::text_laws::leads(
                sql@,
                n,
                "START"@,
            ),
        r == TransactionVerb::Commit <==> exists|n: int|
            crate::text_laws::leads(sql@, n, "COMMIT"@),
        r == TransactionVerb::Rollback <==> exists|n: int|
            crate::text_laws::leads(sql@, n, "ROLLBACK"@),
{
    lemma_verb(sql@);
}

pub proof fn lemma_verb(sql: Seq<char>)
    ensures
        verb_of(sql) == TransactionVerb::Begin <==> exists|n: int|
            crate::text_laws::leads(sql, n, "BEGIN"@) || crate::text_laws::leads(
                sql,
                n,
                "START"@,
            ),
        verb_of(sql) == TransactionVerb::Commit <==> exists|n: int|
            crate::text_laws::leads(sql, n, "COMMIT"@),
        verb_of(sql) == TransactionVerb::Rollback <==> exists|n: int|
            crate::text_laws::leads(sql, n, "ROLLBACK"@),
{
    reveal_strlit("BEGIN");
    reveal_strlit("START");
    reveal_strlit("COMMIT");
    reveal_strlit("ROLLBACK");
    crate::text_laws::lemma_begins(sql, "BEGIN"@);
    crate::text_laws::lemma_begins(sql, "START"@);
    crate::text_laws::lemma_begins(sql, "COMMIT"@);
    crate::text_laws::lemma_begins(sql, "ROLLBACK"@);
    lemma_no_two("BEGIN"@, "COMMIT"@, sql);
    lemma_no_two("START"@, "COMMIT"@, sql);
    lemma_no_two("BEGIN"@, "ROLLBACK"@, sql);
    lemma_no_two("START"@, "ROLLBACK"@, sql);
    lemma_no_two("COMMIT"@, "ROLLBACK"@, sql);
}

/// Two words that begin with different letters do not both lead a text.
proof fn lemma_no_two(a: Seq<char>, b: Seq<char>, sql: Seq<char>)
    requires
        crate::text_laws::is_capital_word(a),
        crate::text_laws::is_capital_word(b),
        a[0] != b[0],
    ensures
        !(exists|n: int| crate::text_laws::leads(sql, n, a)) || !(exists|n: int|
            crate::text_laws::leads(sql, n, b)),
{
    if (exists|n: int| crate::text_laws::leads(sql, n, a)) && (exists|n: int|
        crate::text_laws::leads(sql, n, b)) {
        let n = choose|n: int| crate::text_laws::leads(sql, n, a);
        let m = choose|m: int| crate::text_laws::leads(sql, m, b);
        crate::text_laws::lemma_one_leads(sql, n, a, m, b);
        assert(a[0] == b[0]);
    }
}

} // verus!
