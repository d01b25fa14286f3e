//! Which statements take a write permit: by their kind, and by their first
//! words where the kind does not tell.
use crate::backend::write_admission::{
    Acquired, Go, SessionAdmission, SessionState, Timeout, WriteAdmission, WriteIntent,
};
use crate::backend::BackendError;
use crate::statement::StatementKind;
use vstd::prelude::*;

verus! {

/// A statement that changes rows or the schema is a write, whatever its
/// words: where no permit is parked it waits for one, in a transaction or
/// not. One that returns rows is a read, and never waits.
pub proof fn law_changes_wait<P>(
    sql: &str,
    kind: StatementKind,
    intent: WriteIntent,
    state: SessionState<P>,
)
    requires
        call_ensures(WriteIntent::of, (sql, kind), intent),
    ensures
        kind is Mutation || kind is Ddl ==> intent is Write,
        (kind is Mutation || kind is Ddl) && state.permit is None ==> state.requested(intent).0
            is Wait,
        kind is Query ==> intent is Read && state.requested(intent) == (
            crate::backend::write_admission::Go::<P>::Run(None),
            state,
        ),
{
}

/// A word of a statement: it is not empty and holds no white space.
pub open spec fn is_word(w: Seq<char>) -> bool {
    &&& w.len() > 0
    &&& forall|i: int| 0 <= i < w.len() ==> !crate::text::is_space(#[trigger] w[i])
}

/// A word ends before the text: the text is empty or begins with white space.
pub open spec fn parts_words(rest: Seq<char>) -> bool {
    rest.len() > 0 ==> crate::backend::write_admission::is_ascii_space(rest[0])
}

/// All of it is white space.
pub open spec fn is_blank(s: Seq<char>) -> bool {
    forall|i: int| 0 <= i < s.len() ==> crate::text::is_space(#[trigger] s[i])
}

proof fn lemma_word_end(s: Seq<char>, i: int, j: int)
    requires
        0 <= i <= j <= s.len(),
        forall|k: int|
            i <= k < j ==> !crate::backend::write_admission::is_ascii_space(#[trigger] s[k]),
        j < s.len() ==> crate::backend::write_admission::is_ascii_space(s[j]),
    ensures
        crate::backend::write_admission::word_end(s, i) == j,
    decreases j - i,
{
    if i < j {
        lemma_word_end(s, i + 1, j);
    }
}

proof fn lemma_space_end(s: Seq<char>, i: int, j: int)
    requires
        0 <= i <= j <= s.len(),
        forall|k: int|
            i <= k < j ==> crate::backend::write_admission::is_ascii_space(#[trigger] s[k]),
        j < s.len() ==> !crate::backend::write_admission::is_ascii_space(s[j]),
    ensures
        crate::backend::write_admission::space_end(s, i) == j,
    decreases j - i,
{
    if i < j {
        lemma_space_end(s, i + 1, j);
    }
}

/// The first word of a statement is the one behind its leading white space.
proof fn lemma_first_word(sql: Seq<char>, space: Seq<char>, word: Seq<char>, rest: Seq<char>)
    requires
        sql == space + word + rest,
        is_blank(space),
        is_word(word),
        parts_words(rest),
    ensures
        crate::backend::write_admission::first_word(sql) == crate::text::upper(word),
{
    let n = crate::text_laws::lemma_trim_start(sql);
    let core = crate::text::trim_start(sql);
    let m = crate::text_laws::lemma_trim_end(core);
    let t = crate::text::trim(sql);
    lemma_front(sql, space, word, rest, n);
    let w = word.len() as int;
    assert(core =~= word + rest);
    assert(core[w - 1] == word[w - 1]);
    assert(m >= w);
    assert forall|k: int|
        0 <= k < w implies !crate::backend::write_admission::is_ascii_space(#[trigger] t[k]) by {
        assert(t[k] == word[k]);
    }
    if w < t.len() {
        assert(t[w] == rest[0]);
    }
    lemma_space_end(t, 0, 0);
    lemma_word_end(t, 0, w);
    assert(t.subrange(0, w) =~= word);
}

proof fn lemma_front(sql: Seq<char>, space: Seq<char>, word: Seq<char>, rest: Seq<char>, n: int)
    requires
        sql == space + word + rest,
        is_blank(space),
        is_word(word),
        0 <= n <= sql.len(),
        forall|i: int| 0 <= i < n ==> crate::text::is_space(#[trigger] sql[i]),
        n < sql.len() ==> !crate::text::is_space(sql[n]),
    ensures
        n == space.len(),
{
    let k = space.len() as int;
    assert(sql[k] == word[0]);
    if n < k {
        assert(sql[n] == space[n]);
    }
}

/// The second word of a statement is the one behind the white space after
/// the first.
proof fn lemma_second_word(
    sql: Seq<char>,
    space: Seq<char>,
    word: Seq<char>,
    gap: Seq<char>,
    second: Seq<char>,
    rest: Seq<char>,
)
    requires
        sql == space + word + (gap + second + rest),
        is_blank(space),
        is_word(word),
        gap.len() > 0,
        forall|i: int|
            0 <= i < gap.len() ==> crate::backend::write_admission::is_ascii_space(
                #[trigger] gap[i],
            ),
        is_word(second),
        parts_words(rest),
    ensures
        crate::backend::write_admission::second_word(sql) == crate::text::upper(second),
{
    let n = crate::text_laws::lemma_trim_start(sql);
    let core = crate::text::trim_start(sql);
    let m = crate::text_laws::lemma_trim_end(core);
    let t = crate::text::trim(sql);
    let tail = gap + second + rest;
    lemma_front(sql, space, word, tail, n);
    let a = word.len() as int;
    let b = a + gap.len();
    let c = b + second.len();
    assert(core =~= word + tail);
    assert(core[c - 1] == second[second.len() - 1]);
    assert(m >= c);
    assert forall|k: int|
        0 <= k < a implies !crate::backend::write_admission::is_ascii_space(#[trigger] t[k]) by {
        assert(t[k] == word[k]);
    }
    assert forall|k: int|
        a <= k < b implies crate::backend::write_admission::is_ascii_space(#[trigger] t[k]) by {
        assert(t[k] == gap[k - a]);
    }
    assert forall|k: int|
        b <= k < c implies !crate::backend::write_admission::is_ascii_space(#[trigger] t[k]) by {
        assert(t[k] == second[k - b]);
    }
    if c < t.len() {
        assert(t[c] == rest[0]);
    }
    lemma_space_end(t, 0, 0);
    lemma_word_end(t, 0, a);
    lemma_space_end(t, a, b);
    lemma_word_end(t, b, c);
    assert(t.subrange(b, c) =~= second);
}

/// Transaction control goes by the first word, in whatever case and behind
/// whatever white space: `BEGIN` and `START` open a transaction, `SAVEPOINT`
/// and `RELEASE` open and close a scope in it, and any other word but
/// `ROLLBACK` ends the transaction.
pub proof fn law_transaction_words(
    sql: &str,
    intent: WriteIntent,
    space: Seq<char>,
    word: Seq<char>,
    rest: Seq<char>,
)
    requires
        call_ensures(WriteIntent::of, (sql, StatementKind::Transaction), intent),
        sql@ == space + word + rest,
        is_blank(space),
        is_word(word),
        parts_words(rest),
    ensures
        ({
            let w = crate::text::upper(word);
            &&& intent is BeginDeferred || intent is BeginImmediate <==> w == "BEGIN"@ || w
                == "START"@
            &&& w == "START"@ ==> intent is BeginDeferred
            &&& intent is Savepoint <==> w == "SAVEPOINT"@
            &&& intent is ReleaseSavepoint <==> w == "RELEASE"@
            &&& intent is RollbackTo ==> w == "ROLLBACK"@
            &&& w == "ROLLBACK"@ ==> intent is RollbackTo || intent is EndTransaction
            &&& w == "COMMIT"@ || w == "END"@ ==> intent is EndTransaction
        }),
{
    lemma_first_word(sql@, space, word, rest);
    lemma_words_differ();
}

/// A transaction that is opened takes its permit at once where the second
/// word is `IMMEDIATE` or `EXCLUSIVE`, and only there; a `ROLLBACK` leaves the
/// transaction open where the second word is `TO`, and only there.
pub proof fn law_second_words(
    sql: &str,
    intent: WriteIntent,
    space: Seq<char>,
    word: Seq<char>,
    gap: Seq<char>,
    second: Seq<char>,
    rest: Seq<char>,
)
    requires
        call_ensures(WriteIntent::of, (sql, StatementKind::Transaction), intent),
        sql@ == space + word + (gap + second + rest),
        is_blank(space),
        is_word(word),
        gap.len() > 0,
        forall|i: int|
            0 <= i < gap.len() ==> crate::backend::write_admission::is_ascii_space(
                #[trigger] gap[i],
            ),
        is_word(second),
        parts_words(rest),
    ensures
        ({
            let w = crate::text::upper(word);
            let s = crate::text::upper(second);
            &&& w == "BEGIN"@ ==> (intent is BeginImmediate <==> s == "IMMEDIATE"@ || s
                == "EXCLUSIVE"@)
            &&& w == "ROLLBACK"@ ==> (intent is RollbackTo <==> s == "TO"@)
        }),
{
    assert((gap + second + rest)[0] == gap[0]);
    lemma_first_word(sql@, space, word, gap + second + rest);
    lemma_second_word(sql@, space, word, gap, second, rest);
    lemma_words_differ();
}

/// Without a second word a `BEGIN` is deferred, and a `ROLLBACK` ends the
/// transaction.
pub proof fn law_lone_words(
    sql: &str,
    intent: WriteIntent,
    space: Seq<char>,
    word: Seq<char>,
    rest: Seq<char>,
)
    requires
        call_ensures(WriteIntent::of, (sql, StatementKind::Transaction), intent),
        sql@ == space + word + rest,
        is_blank(space),
        is_word(word),
        is_blank(rest),
    ensures
        crate::text::upper(word) == "BEGIN"@ ==> intent is BeginDeferred,
        crate::text::upper(word) == "ROLLBACK"@ ==> intent is EndTransaction,
{
    let n = crate::text_laws::lemma_trim_start(sql@);
    let core = crate::text::trim_start(sql@);
    let m = crate::text_laws::lemma_trim_end(core);
    let t = crate::text::trim(sql@);
    lemma_front(sql@, space, word, rest, n);
    let w = word.len() as int;
    assert(core =~= word + rest);
    assert(core[w - 1] == word[w - 1]);
    assert(m >= w);
    if m > w {
        assert(core[m - 1] == rest[m - 1 - w]);
    }
    assert(t =~= word);
    assert forall|k: int|
        0 <= k < w implies !crate::backend::write_admission::is_ascii_space(#[trigger] t[k]) by {
        assert(t[k] == word[k]);
    }
    lemma_space_end(t, 0, 0);
    lemma_word_end(t, 0, w);
    lemma_space_end(t, w, w);
    lemma_word_end(t, w, w);
    assert(t.subrange(0, w) =~= word);
    assert(crate::backend::write_admission::second_word(sql@).len() == 0);
    lemma_words_differ();
    reveal_strlit("IMMEDIATE");
    reveal_strlit("EXCLUSIVE");
    reveal_strlit("TO");
}

/// Of a statement whose kind tells nothing, `WITH`, `VACUUM`, `ANALYZE` and
/// `REINDEX` are writes, `END` ends a transaction, and any other first word
/// has no bearing, in whatever case and behind whatever white space.
pub proof fn law_other_words(
    sql: &str,
    intent: WriteIntent,
    space: Seq<char>,
    word: Seq<char>,
    rest: Seq<char>,
)
    requires
        call_ensures(WriteIntent::of, (sql, StatementKind::Other), intent),
        sql@ == space + word + rest,
        is_blank(space),
        is_word(word),
        parts_words(rest),
    ensures
        ({
            let w = crate::text::upper(word);
            &&& intent is Write <==> w == "WITH"@ || w == "VACUUM"@ || w == "ANALYZE"@ || w
                == "REINDEX"@
            &&& intent is EndTransaction <==> w == "END"@
            &&& intent is Write || intent is EndTransaction || intent is Neutral
        }),
{
    lemma_first_word(sql@, space, word, rest);
    reveal_strlit("END");
    reveal_strlit("WITH");
    reveal_strlit("VACUUM");
    reveal_strlit("ANALYZE");
    reveal_strlit("REINDEX");
    assert("END"@.len() == 3 && "WITH"@.len() == 4 && "VACUUM"@.len() == 6);
    assert("ANALYZE"@.len() == 7 && "REINDEX"@.len() == 7);
}

proof fn lemma_words_differ()
    ensures
        "BEGIN"@.len() == 5 && "BEGIN"@[0] == 'B',
        "START"@.len() == 5 && "START"@[0] == 'S',
        "SAVEPOINT"@.len() == 9,
        "RELEASE"@.len() == 7,
        "ROLLBACK"@.len() == 8,
        "COMMIT"@.len() == 6,
        "END"@.len() == 3,
{
    reveal_strlit("BEGIN");
    reveal_strlit("START");
    reveal_strlit("SAVEPOINT");
    reveal_strlit("RELEASE");
    reveal_strlit("ROLLBACK");
    reveal_strlit("COMMIT");
    reveal_strlit("END");
}

/// A transaction counts as open from its begin, or from its first savepoint,
/// to its end: as many releases as savepoints close what savepoints opened.
pub proof fn law_scopes<P>(state: SessionState<P>)
    ensures
        state.requested(WriteIntent::BeginDeferred).1.begun,
        state.requested(WriteIntent::Savepoint).1.savepoints > 0,
        state.savepoints < u32::MAX ==> ({
            let inner = state.requested(WriteIntent::Savepoint).1;
            let after = inner.requested(WriteIntent::ReleaseSavepoint);
            &&& inner.savepoints == state.savepoints + 1
            &&& after.1.begun == state.begun
            &&& after.1.savepoints == state.savepoints
            &&& state.open() ==> after.1 == state
        }),
        !state.requested(WriteIntent::EndTransaction).1.begun,
        state.requested(WriteIntent::EndTransaction).1.savepoints == 0,
        state.requested(WriteIntent::RollbackTo).1 == state,
        state.requested(WriteIntent::Read).1 == state,
        state.requested(WriteIntent::Neutral).1 == state,
        state.requested(WriteIntent::Write).1 == state,
{
}

/// A permit that was waited for is parked where a transaction is open or is
/// being opened, and goes with the statement alone where none is.
pub proof fn law_where_a_permit_goes<P>(state: SessionState<P>, intent: WriteIntent, permit: P)
    ensures
        ({
            let (held, after) = state.resumed(intent, permit);
            &&& intent is BeginImmediate || state.begun || state.savepoints > 0 ==> held is None
                && after.permit == Some(permit)
            &&& !(intent is BeginImmediate || state.begun || state.savepoints > 0) ==> held == Some(
                permit,
            ) && after == state
            &&& intent is BeginImmediate ==> after.begun
            &&& !(intent is BeginImmediate) ==> after.begun == state.begun
            &&& after.savepoints == state.savepoints
        }),
{
}

/// Where admission is on and no permit is parked, a request to run a
/// statement that changes rows or the schema is told to wait, whatever the
/// statement's words.
pub proof fn law_request_of_a_change_waits<P>(
    session: &mut SessionAdmission<P>,
    sql: &str,
    kind: StatementKind,
    r: Go<P>,
)
    requires
        call_ensures(SessionAdmission::<P>::request, (session, sql, kind), r),
        old(session).admission is Some,
        old(session).state.permit is None,
        kind is Mutation || kind is Ddl,
    ensures
        r is Wait,
{
}

/// A permit that came is handed on; a wait that timed out reads like
/// `SQLITE_BUSY` and tells how long it was and how many writes may go on at
/// once, so that every protocol tells its client to try again.
pub proof fn law_outcome_of_a_wait<P>(
    admission: WriteAdmission,
    outcome: Acquired<P>,
    r: Result<P, BackendError>,
)
    requires
        admission.ok(),
        call_ensures(WriteAdmission::acquired::<P>, (&admission, outcome), r),
    ensures
        outcome matches Acquired::Permit(p) ==> r == Ok::<P, BackendError>(p),
        outcome is Closed ==> r matches Err(BackendError::Other(_)),
        outcome is TimedOut ==> (r matches Err(BackendError::Sqlite(m)) && {
            &&& m@ == "[SQLITE_BUSY] timed out after "@
                + crate::backend::write_admission::duration_text(
                admission.acquire_timeout.secs,
                admission.acquire_timeout.nanos,
            ) + " waiting for a write permit ("@ + crate::text::decimal(admission.permits as nat)
                + " concurrent writes allowed)"@
            &&& crate::text_laws::says_words(m@, "sqlite_busy"@)
        }),
{
    if outcome is TimedOut {
        let m = r->Err_0->Sqlite_0@;
        let spelt = seq!['S', 'Q', 'L', 'I', 'T', 'E', '_', 'B', 'U', 'S', 'Y'];
        reveal_strlit("[SQLITE_BUSY] timed out after ");
        reveal_strlit("sqlite_busy");
        assert(crate::text::lower(spelt) =~= "sqlite_busy"@);
        let front = seq!['['];
        let rest = m.skip(12);
        assert(m =~= front + spelt + rest);
        crate::text_laws::lemma_says(front, spelt, rest, "sqlite_busy"@);
    }
}

/// A pool of no permits is none: writes then go ahead.
pub proof fn law_pool_of_permits(permits: usize, timeout: Timeout, r: Option<WriteAdmission>)
    requires
        permits <= usize::MAX / 8,
        call_ensures(WriteAdmission::new, (permits, timeout), r),
    ensures
        r is None <==> permits == 0,
        r matches Some(a) ==> a.permits == permits && a.acquire_timeout == timeout
            && crate::backend::write_admission::made_with(*a.sem) == permits,
{
}

/// Without a pool every statement runs, and nothing is kept of it.
pub proof fn law_without_a_pool<P>(
    session: &mut SessionAdmission<P>,
    sql: &str,
    kind: StatementKind,
    r: Go<P>,
)
    requires
        call_ensures(SessionAdmission::<P>::request, (session, sql, kind), r),
        old(session).admission is None,
    ensures
        r == Go::<P>::Run(None),
        *final(session) == *old(session),
{
}

/// A statement that waited in vain leaves the session as it was, and is an
/// error. A write that got its permit keeps it for the transaction where one
/// is open, and for itself where none is.
pub proof fn law_after_a_wait<P>(
    session: &mut SessionAdmission<P>,
    sql: &str,
    kind: StatementKind,
    outcome: Acquired<P>,
    r: Result<Option<P>, BackendError>,
)
    requires
        old(session).admission matches Some(a) && a.ok(),
        call_ensures(SessionAdmission::<P>::resume, (session, sql, kind, outcome), r),
    ensures
        final(session).admission == old(session).admission,
        !(outcome is Permit) ==> r is Err && final(session).state == old(session).state,
        outcome matches Acquired::Permit(p) ==> {
            &&& r is Ok
            &&& kind is Mutation || kind is Ddl ==> if old(session).state.begun || old(
                session,
            ).state.savepoints > 0 {
                &&& r->Ok_0 is None
                &&& final(session).state.permit == Some(p)
                &&& final(session).state.begun == old(session).state.begun
                &&& final(session).state.savepoints == old(session).state.savepoints
            } else {
                &&& r->Ok_0 == Some(p)
                &&& final(session).state == old(session).state
            }
        },
{
}

/// Words are parted by the white space of ASCII: space, tab, line feed, form
/// feed and carriage return.
pub proof fn law_words_are_parted_by_ascii_space(c: char)
    ensures
        crate::backend::write_admission::is_ascii_space(c) <==> c == ' ' || c == '\t' || c == '\n'
            || c == '\x0C' || c == '\r',
        crate::backend::write_admission::is_ascii_space(c) ==> crate::text::is_space(c),
{
}

/// The statements that need a permit are those that wait where none is
/// parked, and no others.
pub proof fn law_who_needs_a_permit<P>(intent: WriteIntent, r: bool, state: SessionState<P>)
    requires
        call_ensures(WriteIntent::needs_permit, (intent,), r),
        state.permit is None,
    ensures
        r <==> state.requested(intent).0 is Wait,
        r <==> intent is Write || intent is BeginImmediate,
{
}

} // verus!
