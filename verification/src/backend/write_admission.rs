//! Write admission for backends with a single writer.
//!
//! SQLite takes one writer at a time. A server that is offered more
//! concurrent writes than it can absorb degrades instead of levelling off, so
//! a pool of permits stands in front of the write path and the excess waits.
//!
//! * Reads never take a permit.
//! * A transaction holds its permit from its first write to its end, because
//!   it holds the write lock for that long.
//! * `COMMIT` and `ROLLBACK` never wait for a permit, they only give one
//!   back: a commit that had to wait could wait for itself.
//! * A deferred `BEGIN` takes nothing; `BEGIN IMMEDIATE` and `BEGIN
//!   EXCLUSIVE` take the write lock at once, and so a permit at once.
//!
//! Waiting itself is the caller's: [`SessionAdmission::request`] says whether
//! a permit has to be waited for, and [`SessionAdmission::resume`] takes what
//! came of it.
use crate::backend::BackendError;
use crate::statement::StatementKind;
use crate::text::{chars_of, is_word, trimmed, upper_chars};
use std::sync::Arc;
use tokio::sync::Semaphore;
use vstd::prelude::*;
use vstd::slice::slice_subrange;

verus! {

/// White space in ASCII: tab, line feed, form feed, carriage return, space.
pub open spec fn is_ascii_space(c: char) -> bool {
    c == ' ' || c == '\t' || c == '\n' || c == '\r' || c as u32 == 12
}

/// The end of the ASCII white space from `i` on.
pub open spec fn space_end(s: Seq<char>, i: int) -> int
    decreases s.len() - i,
{
    if i < s.len() && is_ascii_space(s[i]) {
        space_end(s, i + 1)
    } else {
        i
    }
}

/// The end of the word from `i` on.
pub open spec fn word_end(s: Seq<char>, i: int) -> int
    decreases s.len() - i,
{
    if i < s.len() && !is_ascii_space(s[i]) {
        word_end(s, i + 1)
    } else {
        i
    }
}

/// The first word from `i` on, in upper case; empty where there is none.
pub open spec fn word_at(s: Seq<char>, i: int) -> Seq<char> {
    let from = space_end(s, i);
    crate::text::upper(s.subrange(from, word_end(s, from)))
}

pub open spec fn first_word(sql: Seq<char>) -> Seq<char> {
    word_at(crate::text::trim(sql), 0)
}

pub open spec fn second_word(sql: Seq<char>) -> Seq<char> {
    let s = crate::text::trim(sql);
    word_at(s, word_end(s, space_end(s, 0)))
}

fn char_is_ascii_space(c: char) -> (r: bool)
    ensures
        r == is_ascii_space(c),
{
    c == ' ' || c == '\t' || c == '\n' || c == '\r' || c as u32 == 12
}

/// The first word from `i` on, in upper case, and its end.
fn word_from(s: &[char], i: usize) -> (r: (Vec<char>, usize))
    requires
        i <= s.len(),
    ensures
        r.0@ == word_at(s@, i as int),
        r.1 == word_end(s@, space_end(s@, i as int)),
        r.1 <= s.len(),
{
    let mut from: usize = i;
    while from < s.len() && char_is_ascii_space(s[from])
        invariant
            i <= from <= s.len(),
            space_end(s@, i as int) == space_end(s@, from as int),
        decreases s.len() - from,
    {
        from += 1;
    }
    let mut to: usize = from;
    while to < s.len() && !char_is_ascii_space(s[to])
        invariant
            from <= to <= s.len(),
            word_end(s@, from as int) == word_end(s@, to as int),
        decreases s.len() - to,
    {
        to += 1;
    }
    (upper_chars(slice_subrange(s, from, to)), to)
}

/// What a statement does to a session's admission state.
#[derive(Clone, Copy, Debug, PartialEq, Eq, Structural)]
pub enum WriteIntent {
    /// A pure read. Never takes a permit.
    Read,
    /// A write. Takes a permit: for the statement in autocommit, for the rest
    /// of the transaction where one is open.
    Write,
    /// `BEGIN` or `START TRANSACTION`: deferred, so no permit yet.
    BeginDeferred,
    /// `BEGIN IMMEDIATE` or `BEGIN EXCLUSIVE`: takes the write lock at once.
    BeginImmediate,
    /// `SAVEPOINT x`: opens a scope without taking the write lock.
    Savepoint,
    /// `RELEASE x`: closes one savepoint; closing the outermost one with no
    /// `BEGIN` outstanding commits.
    ReleaseSavepoint,
    /// `ROLLBACK TO x`: the transaction goes on.
    RollbackTo,
    /// `COMMIT`, `END` or a bare `ROLLBACK`: ends the transaction.
    EndTransaction,
    /// No bearing on the write lock.
    Neutral,
}

pub open spec fn transaction_intent_of(sql: Seq<char>) -> WriteIntent {
    let first = first_word(sql);
    let second = second_word(sql);
    if first == "BEGIN"@ {
        if second == "IMMEDIATE"@ || second == "EXCLUSIVE"@ {
            WriteIntent::BeginImmediate
        } else {
            WriteIntent::BeginDeferred
        }
    } else if first == "START"@ {
        WriteIntent::BeginDeferred
    } else if first == "SAVEPOINT"@ {
        WriteIntent::Savepoint
    } else if first == "RELEASE"@ {
        WriteIntent::ReleaseSavepoint
    } else if first == "ROLLBACK"@ && second == "TO"@ {
        WriteIntent::RollbackTo
    } else {
        WriteIntent::EndTransaction
    }
}

pub open spec fn other_intent_of(sql: Seq<char>) -> WriteIntent {
    let first = first_word(sql);
    if first == "WITH"@ || first == "VACUUM"@ || first == "ANALYZE"@ || first == "REINDEX"@ {
        WriteIntent::Write
    } else if first == "END"@ {
        WriteIntent::EndTransaction
    } else {
        WriteIntent::Neutral
    }
}

pub open spec fn intent_of(sql: Seq<char>, kind: StatementKind) -> WriteIntent {
    match kind {
        StatementKind::Query => WriteIntent::Read,
        StatementKind::Mutation => WriteIntent::Write,
        StatementKind::Ddl => WriteIntent::Write,
        StatementKind::Transaction => transaction_intent_of(sql),
        StatementKind::Other => other_intent_of(sql),
    }
}

impl WriteIntent {
    /// The intent of a statement of SQLite's dialect, given its kind.
    ///
    /// The kind goes by the first word, so a data-modifying `WITH`, `VACUUM`,
    /// `ANALYZE` and `REINDEX` count as `Other`: they are taken for writes.
    /// A read-only `WITH` then takes a permit too.
    pub fn of(sql: &str, kind: StatementKind) -> (r: WriteIntent)
        ensures
            r == intent_of(sql@, kind),
            kind is Query ==> r is Read,
            kind is Mutation || kind is Ddl ==> r is Write,
            kind is Transaction ==> r !is Read && r !is Write && r !is Neutral,
    {
        match kind {
            StatementKind::Query => WriteIntent::Read,
            StatementKind::Mutation => WriteIntent::Write,
            StatementKind::Ddl => WriteIntent::Write,
            StatementKind::Transaction => Self::transaction_intent(sql),
            StatementKind::Other => Self::other_intent(sql),
        }
    }

    /// The intent of a statement that controls a transaction.
    pub fn transaction_intent(sql: &str) -> (r: WriteIntent)
        ensures
            r == transaction_intent_of(sql@),
    {
        let chars = chars_of(sql);
        let s = trimmed(chars.as_slice());
        let (first, end) = word_from(s, 0);
        let (second, _) = word_from(s, end);
        if is_word(first.as_slice(), "BEGIN") {
            if is_word(second.as_slice(), "IMMEDIATE") || is_word(second.as_slice(), "EXCLUSIVE") {
                WriteIntent::BeginImmediate
            } else {
                WriteIntent::BeginDeferred
            }
        } else if is_word(first.as_slice(), "START") {
            WriteIntent::BeginDeferred
        } else if is_word(first.as_slice(), "SAVEPOINT") {
            WriteIntent::Savepoint
        } else if is_word(first.as_slice(), "RELEASE") {
            WriteIntent::ReleaseSavepoint
        } else if is_word(first.as_slice(), "ROLLBACK") && is_word(second.as_slice(), "TO") {
            WriteIntent::RollbackTo
        } else {
            WriteIntent::EndTransaction
        }
    }

    /// The intent of a statement of no other kind. `END` is here because it
    /// is not taken for transaction control by its first word.
    pub fn other_intent(sql: &str) -> (r: WriteIntent)
        ensures
            r == other_intent_of(sql@),
    {
        let chars = chars_of(sql);
        let s = trimmed(chars.as_slice());
        let (first, _) = word_from(s, 0);
        if is_word(first.as_slice(), "WITH") || is_word(first.as_slice(), "VACUUM") || is_word(
            first.as_slice(),
            "ANALYZE",
        ) || is_word(first.as_slice(), "REINDEX") {
            WriteIntent::Write
        } else if is_word(first.as_slice(), "END") {
            WriteIntent::EndTransaction
        } else {
            WriteIntent::Neutral
        }
    }

    /// Tells whether the statement needs a permit before it may run.
    pub fn needs_permit(self) -> (r: bool)
        ensures
            r == (self is Write || self is BeginImmediate),
    {
        match self {
            WriteIntent::Write => true,
            WriteIntent::BeginImmediate => true,
            _ => false,
        }
    }
}

/// tokio's semaphore.
#[verifier::external_type_specification]
#[verifier::external_body]
pub struct ExSemaphore(Semaphore);

/// How many permits a semaphore was made with.
pub uninterp spec fn made_with(sem: Semaphore) -> nat;

/// `Semaphore::new` makes a semaphore of that many permits. It panics above
/// `Semaphore::MAX_PERMITS`, an eighth of the range of `usize`.
#[verifier::external_body]
fn new_semaphore(permits: usize) -> (r: Semaphore)
    requires
        permits <= usize::MAX / 8,
    ensures
        made_with(r) == permits,
{
    Semaphore::new(permits)
}

/// `Semaphore::available_permits` tells how many permits nobody holds right
/// now. Nothing is said of the number: it changes as permits come and go.
#[verifier::external_body]
fn semaphore_available(sem: &Semaphore) -> (r: usize)
{
    sem.available_permits()
}

/// How `std::time::Duration` shows itself for debugging.
pub uninterp spec fn duration_text(secs: u64, nanos: u32) -> Seq<char>;

/// The debug text of a `std::time::Duration`, which the number of seconds and
/// nanoseconds determines.
#[verifier::external_body]
fn duration_debug(secs: u64, nanos: u32) -> (r: String)
    requires
        nanos < 1_000_000_000,
    ensures
        r@ == duration_text(secs, nanos),
{
    format!("{:?}", std::time::Duration::new(secs, nanos))
}

/// A length of time.
#[derive(Clone, Copy, Debug, PartialEq, Eq, Structural)]
pub struct Timeout {
    pub secs: u64,
    /// Below a thousand million.
    pub nanos: u32,
}

/// How long a write waits for a permit unless told otherwise.
pub fn default_acquire_timeout() -> (r: Timeout)
    ensures
        r == (Timeout { secs: 30, nanos: 0 }),
{
    Timeout { secs: 30, nanos: 0 }
}

/// A pool of write permits. Every clone shares one semaphore.
#[derive(Clone, Debug)]
pub struct WriteAdmission {
    pub sem: Arc<Semaphore>,
    pub acquire_timeout: Timeout,
    pub permits: usize,
}

/// What came of waiting for a permit.
#[derive(Debug)]
pub enum Acquired<P> {
    Permit(P),
    /// The semaphore was closed.
    Closed,
    /// The timeout passed.
    TimedOut,
}

pub open spec fn busy_text(timeout: Timeout, permits: nat) -> Seq<char> {
    "[SQLITE_BUSY] timed out after "@ + duration_text(timeout.secs, timeout.nanos)
        + " waiting for a write permit ("@ + crate::text::decimal(permits)
        + " concurrent writes allowed)"@
}

impl WriteAdmission {
    pub open spec fn ok(self) -> bool {
        self.acquire_timeout.nanos < 1_000_000_000
    }

    /// A pool of `permits` concurrent writes; `None` for no permits, where
    /// admission is off and writes go ahead.
    pub fn new(permits: usize, acquire_timeout: Timeout) -> (r: Option<WriteAdmission>)
        requires
            permits <= usize::MAX / 8,
        ensures
            match r {
                None => permits == 0,
                Some(a) => {
                    &&& permits > 0
                    &&& a.permits == permits
                    &&& a.acquire_timeout == acquire_timeout
                    &&& made_with(*a.sem) == permits
                },
            },
    {
        if permits > 0 {
            Some(WriteAdmission { sem: Arc::new(new_semaphore(permits)), acquire_timeout, permits })
        } else {
            None
        }
    }

    /// The configured number of permits.
    pub fn permits(&self) -> (r: usize)
        ensures
            r == self.permits,
    {
        self.permits
    }

    /// How many permits nobody holds right now.
    pub fn available_permits(&self) -> (r: usize) {
        semaphore_available(&*self.sem)
    }

    /// The permit that was waited for, or the error for having none. A
    /// timeout reads like `SQLITE_BUSY`, which every protocol maps to its
    /// lock error that a client may retry.
    pub fn acquired<P>(&self, outcome: Acquired<P>) -> (r: Result<P, BackendError>)
        requires
            self.ok(),
        ensures
            match outcome {
                Acquired::Permit(p) => r == Ok::<P, BackendError>(p),
                Acquired::Closed => r matches Err(BackendError::Other(m)) && m@
                    == "write admission semaphore closed"@,
                Acquired::TimedOut => r matches Err(BackendError::Sqlite(m)) && m@ == busy_text(
                    self.acquire_timeout,
                    self.permits as nat,
                ),
            },
    {
        match outcome {
            Acquired::Permit(p) => Ok(p),
            Acquired::Closed => Err(
                BackendError::Other("write admission semaphore closed".to_owned()),
            ),
            Acquired::TimedOut => {
                let mut m: String = "[SQLITE_BUSY] timed out after ".to_owned();
                let waited = duration_debug(self.acquire_timeout.secs, self.acquire_timeout.nanos);
                m.append(waited.as_str());
                m.append(" waiting for a write permit (");
                crate::text::push_decimal(&mut m, self.permits as u64);
                m.append(" concurrent writes allowed)");
                Err(BackendError::Sqlite(m))
            },
        }
    }
}

/// A session's transaction scope and the permit parked with it. Dropping the
/// session drops the permit, however the session ends.
#[derive(Debug)]
pub struct SessionState<P> {
    /// An explicit `BEGIN` or `START TRANSACTION` is outstanding.
    pub begun: bool,
    /// How many savepoints are open.
    pub savepoints: u32,
    /// The permit held for the rest of the transaction.
    pub permit: Option<P>,
}

/// Whether a statement may run.
#[derive(Debug)]
pub enum Go<P> {
    /// It may. The permit, where there is one, is held until the statement
    /// has been answered and dropped then.
    Run(Option<P>),
    /// It has to wait for a permit.
    Wait,
}

impl<P> SessionState<P> {
    pub open spec fn open(self) -> bool {
        self.begun || self.savepoints > 0
    }

    /// A permit is parked only while a transaction is open.
    pub open spec fn ok(self) -> bool {
        self.permit is Some ==> self.open()
    }

    /// The answer to a statement, and the state after it.
    pub open spec fn requested(self, intent: WriteIntent) -> (Go<P>, SessionState<P>) {
        match intent {
            WriteIntent::Read => (Go::Run(None), self),
            WriteIntent::Neutral => (Go::Run(None), self),
            WriteIntent::RollbackTo => (Go::Run(None), self),
            WriteIntent::BeginDeferred => (Go::Run(None), SessionState { begun: true, ..self }),
            WriteIntent::BeginImmediate => if self.permit is Some {
                (Go::Run(None), SessionState { begun: true, ..self })
            } else {
                (Go::Wait, self)
            },
            WriteIntent::Savepoint => (
                Go::Run(None),
                SessionState {
                    savepoints: if self.savepoints == u32::MAX {
                        u32::MAX
                    } else {
                        (self.savepoints + 1) as u32
                    },
                    ..self
                },
            ),
            WriteIntent::Write => if self.open() && self.permit is Some {
                (Go::Run(None), self)
            } else {
                (Go::Wait, self)
            },
            WriteIntent::ReleaseSavepoint => {
                let left: u32 = if self.savepoints == 0 {
                    0
                } else {
                    (self.savepoints - 1) as u32
                };
                if self.begun || left > 0 {
                    (Go::Run(None), SessionState { savepoints: left, ..self })
                } else {
                    (Go::Run(self.permit), SessionState { savepoints: left, permit: None, ..self })
                }
            },
            WriteIntent::EndTransaction => (
                Go::Run(self.permit),
                SessionState { begun: false, savepoints: 0, permit: None },
            ),
        }
    }

    /// What the statement that waited holds itself, and the state after it,
    /// once it got its permit.
    pub open spec fn resumed(self, intent: WriteIntent, permit: P) -> (Option<P>, SessionState<P>) {
        if intent is BeginImmediate {
            (None, SessionState { begun: true, permit: Some(permit), ..self })
        } else if self.open() {
            (None, SessionState { permit: Some(permit), ..self })
        } else {
            (Some(permit), self)
        }
    }

    pub fn new() -> (r: SessionState<P>)
        ensures
            r == (SessionState::<P> { begun: false, savepoints: 0, permit: None }),
    {
        SessionState { begun: false, savepoints: 0, permit: None }
    }

    /// Tells whether any explicit transaction scope is open.
    pub fn in_transaction(&self) -> (r: bool)
        ensures
            r == self.open(),
    {
        self.begun || self.savepoints > 0
    }

    /// Tells whether a permit is parked for an open transaction.
    pub fn holds_permit(&self) -> (r: bool)
        ensures
            r == (self.permit is Some),
    {
        self.permit.is_some()
    }

    /// Decides whether a statement may run.
    pub fn request(&mut self, intent: WriteIntent) -> (r: Go<P>)
        ensures
            (r, *final(self)) == old(self).requested(intent),
            r is Wait ==> *final(self) == *old(self),
            old(self).permit is None && (intent is Write || intent is BeginImmediate) ==> r is Wait,
            intent is EndTransaction ==> !final(self).open() && final(self).permit is None,
    {
        match intent {
            WriteIntent::Read => Go::Run(None),
            WriteIntent::Neutral => Go::Run(None),
            WriteIntent::RollbackTo => Go::Run(None),
            WriteIntent::BeginDeferred => {
                self.begun = true;
                Go::Run(None)
            },
            WriteIntent::BeginImmediate => {
                if self.permit.is_some() {
                    self.begun = true;
                    Go::Run(None)
                } else {
                    Go::Wait
                }
            },
            WriteIntent::Savepoint => {
                self.savepoints = self.savepoints.saturating_add(1);
                Go::Run(None)
            },
            WriteIntent::Write => {
                if self.in_transaction() && self.permit.is_some() {
                    Go::Run(None)
                } else {
                    Go::Wait
                }
            },
            WriteIntent::ReleaseSavepoint => {
                self.savepoints = self.savepoints.saturating_sub(1);
                if self.in_transaction() {
                    Go::Run(None)
                } else {
                    Go::Run(self.permit.take())
                }
            },
            WriteIntent::EndTransaction => {
                self.begun = false;
                self.savepoints = 0;
                Go::Run(self.permit.take())
            },
        }
    }

    /// Takes the permit that a statement waited for.
    pub fn resume(&mut self, intent: WriteIntent, permit: P) -> (r: Option<P>)
        ensures
            (r, *final(self)) == old(self).resumed(intent, permit),
    {
        match intent {
            WriteIntent::BeginImmediate => {
                self.begun = true;
                self.permit = Some(permit);
                None
            },
            _ => {
                if self.in_transaction() {
                    self.permit = Some(permit);
                    None
                } else {
                    Some(permit)
                }
            },
        }
    }
}

/// One session's view of the pool. Without a pool, admission is off.
#[derive(Debug)]
pub struct SessionAdmission<P> {
    pub admission: Option<WriteAdmission>,
    pub state: SessionState<P>,
}

impl<P> SessionAdmission<P> {
    pub fn new(admission: Option<WriteAdmission>) -> (r: SessionAdmission<P>)
        ensures
            r.admission == admission,
            r.state == (SessionState::<P> { begun: false, savepoints: 0, permit: None }),
    {
        SessionAdmission { admission, state: SessionState::new() }
    }

    /// Tells whether any explicit transaction scope is open.
    pub fn in_transaction(&self) -> (r: bool)
        ensures
            r == self.state.open(),
    {
        self.state.in_transaction()
    }

    /// Tells whether a permit is parked for an open transaction.
    pub fn holds_permit(&self) -> (r: bool)
        ensures
            r == (self.state.permit is Some),
    {
        self.state.holds_permit()
    }

    /// Tells whether admission is on for this session.
    pub fn is_enabled(&self) -> (r: bool)
        ensures
            r == (self.admission is Some),
    {
        self.admission.is_some()
    }

    /// Decides whether a statement may run. Where admission is off, it may,
    /// and nothing is kept of it.
    pub fn request(&mut self, sql: &str, kind: StatementKind) -> (r: Go<P>)
        ensures
            final(self).admission == old(self).admission,
            if old(self).admission is Some {
                (r, final(self).state) == old(self).state.requested(intent_of(sql@, kind))
            } else {
                r == Go::<P>::Run(None) && final(self).state == old(self).state
            },
            old(self).admission is Some && old(self).state.permit is None && (kind is Mutation
                || kind is Ddl) ==> r is Wait,
            kind is Query ==> r == Go::<P>::Run(None),
            kind is Query || kind is Mutation || kind is Ddl ==> final(self).state == old(
                self,
            ).state,
    {
        if self.admission.is_none() {
            return Go::Run(None);
        }
        let intent = WriteIntent::of(sql, kind);
        self.state.request(intent)
    }

    /// Takes what came of waiting for a permit. Where none came, the session
    /// is as it was before the statement, and the statement may be retried.
    pub fn resume(&mut self, sql: &str, kind: StatementKind, outcome: Acquired<P>) -> (r: Result<
        Option<P>,
        BackendError,
    >)
        requires
            old(self).admission matches Some(a) && a.ok(),
        ensures
            final(self).admission == old(self).admission,
            match outcome {
                Acquired::Permit(p) => {
                    &&& r matches Ok(held) && (held, final(self).state)
                        == old(self).state.resumed(intent_of(sql@, kind), p)
                },
                Acquired::Closed => {
                    &&& final(self).state == old(self).state
                    &&& r matches Err(BackendError::Other(m)) && m@
                        == "write admission semaphore closed"@
                },
                Acquired::TimedOut => {
                    &&& final(self).state == old(self).state
                    &&& r matches Err(BackendError::Sqlite(m)) && m@ == busy_text(
                        old(self).admission->0.acquire_timeout,
                        old(self).admission->0.permits as nat,
                    )
                },
            },
    {
        let got = match &self.admission {
            Some(admission) => admission.acquired(outcome),
            None => Err(BackendError::Other(String::new())),
        };
        match got {
            Ok(permit) => {
                let intent = WriteIntent::of(sql, kind);
                Ok(self.state.resume(intent, permit))
            },
            Err(e) => Err(e),
        }
    }
}

/// A permit is parked only while a transaction is open, whatever statements
/// come.
pub proof fn law_permit_only_in_transaction<P>(
    state: SessionState<P>,
    intent: WriteIntent,
    permit: P,
)
    requires
        state.ok(),
    ensures
        state.requested(intent).1.ok(),
        state.requested(intent).0 is Wait ==> state.resumed(intent, permit).1.ok(),
{
}

/// Only a write or an immediate `BEGIN` waits for a permit: no read, and no
/// statement that ends a transaction.
pub proof fn law_only_writes_wait<P>(state: SessionState<P>, intent: WriteIntent)
    ensures
        state.requested(intent).0 is Wait ==> intent is Write || intent is BeginImmediate,
        state.requested(intent).0 is Wait ==> state.requested(intent).1 == state,
{
}

/// A session never holds two permits: while one is parked, nothing waits for
/// another.
pub proof fn law_one_permit_per_session<P>(state: SessionState<P>, intent: WriteIntent)
    requires
        state.ok(),
        state.permit is Some,
    ensures
        state.requested(intent).0 !is Wait,
{
}

/// The parked permit leaves the session only with the statement that ends
/// the transaction, and that statement carries it across its own round trip.
pub proof fn law_permit_is_held_to_the_end<P>(state: SessionState<P>, intent: WriteIntent)
    requires
        state.ok(),
        state.permit is Some,
    ensures
        ({
            let (go, after) = state.requested(intent);
            if after.open() {
                go == Go::<P>::Run(None) && after.permit == state.permit
            } else {
                go == Go::Run(state.permit) && after.permit is None
            }
        }),
{
}

/// Outside a transaction a write holds its permit for itself alone.
pub proof fn law_autocommit_write_parks_nothing<P>(state: SessionState<P>, permit: P)
    requires
        state.ok(),
        !state.open(),
    ensures
        state.requested(WriteIntent::Write).0 is Wait,
        state.resumed(WriteIntent::Write, permit) == (Some(permit), state),
{
}

/// A read-only transaction costs no permit.
pub proof fn law_read_only_transaction_is_free<P>(state: SessionState<P>)
    requires
        state.ok(),
        !state.open(),
    ensures
        ({
            let begun = state.requested(WriteIntent::BeginDeferred);
            let read = begun.1.requested(WriteIntent::Read);
            let ended = read.1.requested(WriteIntent::EndTransaction);
            &&& begun.0 == Go::<P>::Run(None)
            &&& read.0 == Go::<P>::Run(None)
            &&& ended.0 == Go::<P>::Run(None)
            &&& ended.1 == state
        }),
{
}

/// One permit or none.
pub open spec fn permits_in<P>(held: Option<P>) -> nat {
    if held is Some {
        1
    } else {
        0
    }
}

/// A statement neither makes a permit nor loses one: what was parked is
/// parked still or goes with the statement, and a permit that was waited for
/// is parked or goes with the statement.
pub proof fn law_no_permit_is_made_or_lost<P>(
    state: SessionState<P>,
    intent: WriteIntent,
    permit: P,
)
    requires
        state.ok(),
    ensures
        match state.requested(intent) {
            (Go::Run(held), after) => permits_in(state.permit) == permits_in(after.permit)
                + permits_in(held),
            (Go::Wait, after) => {
                let (held, resumed) = state.resumed(intent, permit);
                &&& after == state
                &&& permits_in(state.permit) + 1 == permits_in(resumed.permit) + permits_in(held)
            },
        },
{
}

/// Where the permits of a pool are: free, with a statement that is under
/// way, or parked with one of the sessions.
pub struct Ledger<P> {
    pub free: nat,
    pub out: nat,
    pub sessions: Seq<SessionState<P>>,
}

/// What happens to a pool.
pub enum Event<P> {
    /// A session begins.
    Connected,
    /// A session's statement runs without waiting.
    Ran(int, WriteIntent),
    /// A session's statement waited and got this permit.
    Granted(int, WriteIntent, P),
    /// A session's statement waited and got none, or was given up.
    NotGranted(int, WriteIntent),
    /// A statement that held a permit is done.
    Answered,
    /// A session ends.
    Dropped(int),
}

/// The number of permits that are parked.
pub open spec fn parked<P>(sessions: Seq<SessionState<P>>) -> nat
    decreases sessions.len(),
{
    if sessions.len() == 0 {
        0
    } else {
        parked(sessions.drop_last()) + permits_in(sessions.last().permit)
    }
}

impl<P> Ledger<P> {
    /// The event can happen. A semaphore grants only a permit that is free.
    pub open spec fn allows(self, event: Event<P>) -> bool {
        match event {
            Event::Connected => true,
            Event::Ran(i, intent) => 0 <= i < self.sessions.len()
                && self.sessions[i].requested(intent).0 !is Wait,
            Event::Granted(i, intent, _) => 0 <= i < self.sessions.len()
                && self.sessions[i].requested(intent).0 is Wait && self.free > 0,
            Event::NotGranted(i, intent) => 0 <= i < self.sessions.len()
                && self.sessions[i].requested(intent).0 is Wait,
            Event::Answered => self.out > 0,
            Event::Dropped(i) => 0 <= i < self.sessions.len(),
        }
    }

    /// Where the permits are after the event. A permit that is dropped is
    /// free again.
    pub open spec fn after(self, event: Event<P>) -> Ledger<P> {
        match event {
            Event::Connected => Ledger {
                sessions: self.sessions.push(
                    SessionState { begun: false, savepoints: 0, permit: None },
                ),
                ..self
            },
            Event::Ran(i, intent) => {
                let (go, state) = self.sessions[i].requested(intent);
                Ledger {
                    out: self.out + permits_in(go->Run_0),
                    sessions: self.sessions.update(i, state),
                    ..self
                }
            },
            Event::Granted(i, intent, permit) => {
                let (held, state) = self.sessions[i].resumed(intent, permit);
                Ledger {
                    free: (self.free - 1) as nat,
                    out: self.out + permits_in(held),
                    sessions: self.sessions.update(i, state),
                }
            },
            Event::NotGranted(_, _) => self,
            Event::Answered => Ledger {
                free: self.free + 1,
                out: (self.out - 1) as nat,
                ..self
            },
            Event::Dropped(i) => Ledger {
                free: self.free + permits_in(self.sessions[i].permit),
                sessions: self.sessions.remove(i),
                ..self
            },
        }
    }

    /// Every permit is somewhere, and one is parked only in a transaction.
    pub open spec fn adds_up(self, permits: nat) -> bool {
        &&& self.free + self.out + parked(self.sessions) == permits
        &&& forall|i: int| 0 <= i < self.sessions.len() ==> (#[trigger] self.sessions[i]).ok()
    }
}

proof fn lemma_parked_update<P>(sessions: Seq<SessionState<P>>, i: int, state: SessionState<P>)
    requires
        0 <= i < sessions.len(),
    ensures
        parked(sessions.update(i, state)) + permits_in(sessions[i].permit) == parked(sessions)
            + permits_in(state.permit),
    decreases sessions.len(),
{
    let updated = sessions.update(i, state);
    if i == sessions.len() - 1 {
        assert(updated.drop_last() =~= sessions.drop_last());
    } else {
        assert(updated.drop_last() =~= sessions.drop_last().update(i, state));
        lemma_parked_update(sessions.drop_last(), i, state);
    }
}

proof fn lemma_parked_remove<P>(sessions: Seq<SessionState<P>>, i: int)
    requires
        0 <= i < sessions.len(),
    ensures
        parked(sessions.remove(i)) + permits_in(sessions[i].permit) == parked(sessions),
    decreases sessions.len(),
{
    if i == sessions.len() - 1 {
        assert(sessions.remove(i) =~= sessions.drop_last());
    } else {
        assert(sessions.remove(i).drop_last() =~= sessions.drop_last().remove(i));
        lemma_parked_remove(sessions.drop_last(), i);
    }
}

/// The permits of a pool that are free, with a statement or parked add up to
/// the pool after any event.
pub proof fn law_permits_add_up<P>(ledger: Ledger<P>, event: Event<P>, permits: nat)
    requires
        ledger.adds_up(permits),
        ledger.allows(event),
    ensures
        ledger.after(event).adds_up(permits),
{
    let sessions = ledger.sessions;
    let after = ledger.after(event);
    match event {
        Event::Connected => {
            assert(after.sessions.drop_last() =~= sessions);
        },
        Event::Ran(i, intent) => {
            lemma_parked_update(sessions, i, sessions[i].requested(intent).1);
        },
        Event::Granted(i, intent, permit) => {
            law_no_permit_is_made_or_lost(sessions[i], intent, permit);
            law_permit_only_in_transaction(sessions[i], intent, permit);
            lemma_parked_update(sessions, i, sessions[i].resumed(intent, permit).1);
        },
        Event::NotGranted(_, _) => {},
        Event::Answered => {},
        Event::Dropped(i) => {
            lemma_parked_remove(sessions, i);
        },
    }
}

/// The pool after a series of events.
pub open spec fn after_all<P>(ledger: Ledger<P>, events: Seq<Event<P>>) -> Ledger<P>
    decreases events.len(),
{
    if events.len() == 0 {
        ledger
    } else {
        after_all(ledger, events.drop_last()).after(events.last())
    }
}

/// Each event of a series can happen when it comes.
pub open spec fn allows_all<P>(ledger: Ledger<P>, events: Seq<Event<P>>) -> bool
    decreases events.len(),
{
    events.len() == 0 || {
        &&& allows_all(ledger, events.drop_last())
        &&& after_all(ledger, events.drop_last()).allows(events.last())
    }
}

/// Of a new pool, whatever statements run, wait, give up or end and whatever
/// sessions come and go: its permits are free, with a statement or parked,
/// and one is parked only in a transaction.
pub proof fn law_no_permit_leaks<P>(permits: nat, events: Seq<Event<P>>)
    requires
        allows_all(Ledger { free: permits, out: 0, sessions: Seq::empty() }, events),
    ensures
        after_all(Ledger { free: permits, out: 0, sessions: Seq::empty() }, events).adds_up(permits),
    decreases events.len(),
{
    let new = Ledger { free: permits, out: 0, sessions: Seq::<SessionState<P>>::empty() };
    if events.len() > 0 {
        law_no_permit_leaks(permits, events.drop_last());
        law_permits_add_up(after_all(new, events.drop_last()), events.last(), permits);
    }
}

} // verus!
