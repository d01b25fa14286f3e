//! What surrounds an in-process SQLite database: values as SQLite hands them
//! over, the `REGEXP` operator, the settings of a factory of sessions, and
//! the reuse of idle sessions.
use crate::backend::write_admission::Timeout;
use crate::backend::{BackendError, Double, ExecuteResult, Value};
use crate::text::{
    chars_of, is_word, push_decimal, signed_decimal_text, starts_with, text_from_utf8,
    text_from_utf8_lossy,
};
use regex::Regex;
use std::collections::VecDeque;
use vstd::prelude::*;

verus! {

/// A value as SQLite hands it over. Its texts are bytes that should be UTF-8
/// and need not be.
#[derive(Debug)]
pub enum RawValue {
    Null,
    Integer(i64),
    Real(Double),
    Text(Vec<u8>),
    Blob(Vec<u8>),
}

/// `v` is what a raw value is taken for: a text that is not UTF-8 is taken
/// for bytes, so that nothing of it is lost.
pub open spec fn is_taken_for(raw: RawValue, v: crate::backend::Datum) -> bool {
    match raw {
        RawValue::Null => v == crate::backend::Datum::Null,
        RawValue::Integer(i) => v == crate::backend::Datum::Integer(i),
        RawValue::Real(d) => v == crate::backend::Datum::Float(d@),
        RawValue::Text(b) => if vstd::utf8::valid_utf8(b@) {
            v matches crate::backend::Datum::Text(s) && crate::text::utf8(s) == b@
        } else {
            v == crate::backend::Datum::Blob(b@)
        },
        RawValue::Blob(b) => v == crate::backend::Datum::Blob(b@),
    }
}

/// The value of a raw value.
pub fn extract_value(raw: RawValue) -> (r: Value)
    ensures
        is_taken_for(raw, r@),
{
    match raw {
        RawValue::Null => Value::Null,
        RawValue::Integer(i) => Value::Integer(i),
        RawValue::Real(d) => Value::Float(d),
        RawValue::Text(b) => match text_from_utf8(b.as_slice()) {
            Some(s) => Value::Text(s),
            None => Value::Blob(b),
        },
        RawValue::Blob(b) => Value::Blob(b),
    }
}

/// No two raw values of different content are taken for the same value,
/// unless one of them is a text that is not UTF-8.
pub proof fn law_extraction_loses_nothing(
    a: RawValue,
    b: RawValue,
    v: crate::backend::Datum,
)
    requires
        is_taken_for(a, v),
        is_taken_for(b, v),
        a matches RawValue::Text(x) ==> vstd::utf8::valid_utf8(x@),
        b matches RawValue::Text(x) ==> vstd::utf8::valid_utf8(x@),
    ensures
        match (a, b) {
            (RawValue::Null, RawValue::Null) => true,
            (RawValue::Integer(i), RawValue::Integer(j)) => i == j,
            (RawValue::Real(d), RawValue::Real(e)) => d@ == e@,
            (RawValue::Text(x), RawValue::Text(y)) => x@ == y@,
            (RawValue::Blob(x), RawValue::Blob(y)) => x@ == y@,
            _ => false,
        },
{
}

/// What a statement that returns no rows did. A connection that has inserted
/// nothing has a last row id of zero.
pub fn execute_result(affected: usize, last_id: i64) -> (r: ExecuteResult)
    ensures
        r.affected_rows == affected,
        r.last_insert_rowid == if last_id != 0 {
            Some(last_id)
        } else {
            None
        },
{
    ExecuteResult {
        affected_rows: affected as u64,
        last_insert_rowid: if last_id != 0 {
            Some(last_id)
        } else {
            None
        },
    }
}

/// `REGEXP` reads a value as text; NULL has none.
pub open spec fn regexp_text(raw: RawValue) -> Option<Seq<char>> {
    match raw {
        RawValue::Null => None,
        RawValue::Integer(i) => Some(crate::text::signed_decimal(i as int)),
        RawValue::Real(d) => Some(d.text@),
        RawValue::Text(b) => Some(crate::text::utf8_lossy(b@)),
        RawValue::Blob(b) => Some(crate::text::utf8_lossy(b@)),
    }
}

/// The text that `REGEXP` reads a value as.
pub fn coerce_text(value: &RawValue) -> (r: Option<String>)
    ensures
        match r {
            Some(s) => regexp_text(*value) == Some(s@),
            None => regexp_text(*value) is None,
        },
        value matches RawValue::Text(b) ==> (vstd::utf8::valid_utf8(b@) ==> crate::text::utf8(
            regexp_text(*value)->0,
        ) == b@),
        value matches RawValue::Blob(b) ==> (vstd::utf8::valid_utf8(b@) ==> crate::text::utf8(
            regexp_text(*value)->0,
        ) == b@),
{
    match value {
        RawValue::Null => None,
        RawValue::Integer(i) => Some(signed_decimal_text(*i)),
        RawValue::Real(d) => Some(d.text.clone()),
        RawValue::Text(b) => Some(text_from_utf8_lossy(b.as_slice())),
        RawValue::Blob(b) => Some(text_from_utf8_lossy(b.as_slice())),
    }
}

/// A compiled pattern of the `regex` crate.
#[verifier::external_type_specification]
#[verifier::external_body]
pub struct ExRegex(Regex);

/// An error of the `regex` crate.
#[verifier::external_type_specification]
#[verifier::external_body]
pub struct ExRegexError(regex::Error);

/// The pattern that was compiled.
pub uninterp spec fn pattern_of(re: Regex) -> Seq<char>;

/// A text is a pattern that compiles.
pub uninterp spec fn compiles(pattern: Seq<char>) -> bool;

/// A pattern matches somewhere in a text.
pub uninterp spec fn matches_in(pattern: Seq<char>, haystack: Seq<char>) -> bool;

/// `Regex::new` compiles a pattern, or fails on a text that is none. What a
/// pattern is, the crate's syntax says.
#[verifier::external_body]
pub(crate) fn compile_pattern(pattern: &str) -> (r: Result<Regex, regex::Error>)
    ensures
        match r {
            Ok(re) => compiles(pattern@) && pattern_of(re) == pattern@,
            Err(_) => !compiles(pattern@),
        },
{
    Regex::new(pattern)
}

/// `Regex::is_match` tells whether the pattern matches somewhere in a text.
/// Where it does, the crate's documentation says.
#[verifier::external_body]
pub(crate) fn pattern_matches(re: &Regex, haystack: &str) -> (r: bool)
    ensures
        r == matches_in(pattern_of(*re), haystack@),
{
    re.is_match(haystack)
}

/// The text of a pattern's value. NULL stands for the empty pattern, which is
/// never used: see [`regexp`].
pub open spec fn pattern_text(pattern: RawValue) -> Seq<char> {
    match regexp_text(pattern) {
        Some(s) => s,
        None => Seq::empty(),
    }
}

/// Compiles the pattern of a `REGEXP`.
pub fn regexp_pattern(pattern: &RawValue) -> (r: Result<Regex, regex::Error>)
    ensures
        match r {
            Ok(re) => compiles(pattern_text(*pattern)) && pattern_of(re) == pattern_text(*pattern),
            Err(_) => !compiles(pattern_text(*pattern)),
        },
        pattern matches RawValue::Text(b) ==> (vstd::utf8::valid_utf8(b@) ==> crate::text::utf8(
            pattern_text(*pattern),
        ) == b@),
{
    match coerce_text(pattern) {
        Some(s) => compile_pattern(s.as_str()),
        None => compile_pattern(String::new().as_str()),
    }
}

/// What a compiled pattern makes of a value: nothing of NULL.
pub fn regexp_match(re: &Regex, haystack: &RawValue) -> (r: Option<bool>)
    ensures
        r == match regexp_text(*haystack) {
            Some(s) => Some(matches_in(pattern_of(*re), s)),
            None => None,
        },
        haystack matches RawValue::Text(b) ==> (vstd::utf8::valid_utf8(b@) ==> crate::text::utf8(
            regexp_text(*haystack)->0,
        ) == b@),
{
    match coerce_text(haystack) {
        Some(s) => Some(pattern_matches(re, s.as_str())),
        None => None,
    }
}

/// `haystack REGEXP pattern`. NULL on either side gives NULL, even beside a
/// pattern that does not compile; a pattern that does not compile is an
/// error.
pub fn regexp(pattern: &RawValue, haystack: &RawValue) -> (r: Result<Option<bool>, regex::Error>)
    ensures
        match (regexp_text(*pattern), regexp_text(*haystack)) {
            (Some(p), Some(h)) => match r {
                Ok(found) => compiles(p) && found == Some(matches_in(p, h)),
                Err(_) => !compiles(p),
            },
            _ => r matches Ok(found) && found is None,
        },
        pattern matches RawValue::Text(b) ==> (!(haystack is Null) && vstd::utf8::valid_utf8(b@)
            ==> crate::text::utf8(pattern_text(*pattern)) == b@),
        haystack matches RawValue::Text(b) ==> (r is Ok && !(pattern is Null)
            && vstd::utf8::valid_utf8(b@) ==> crate::text::utf8(regexp_text(*haystack)->0) == b@),
{
    if is_null(pattern) || is_null(haystack) {
        return Ok(None);
    }
    match regexp_pattern(pattern) {
        Ok(re) => Ok(regexp_match(&re, haystack)),
        Err(e) => Err(e),
    }
}

/// Whether a value is NULL.
pub fn is_null(value: &RawValue) -> (r: bool)
    ensures
        r == (value is Null),
        r == (regexp_text(*value) is None),
{
    match value {
        RawValue::Null => true,
        _ => false,
    }
}

/// Where a database lives.
#[derive(Clone, Copy, Debug, PartialEq, Eq, Structural)]
pub enum Target {
    /// In the file that is named.
    File,
    /// In memory, so to say: in a temporary file of its own.
    MemoryTempFile,
}

/// A path that names a database in memory: none at all, `:memory:`, or a
/// `file::memory:` URI. A path that merely holds the marker names a file.
pub open spec fn is_memory(path: Seq<char>) -> bool {
    ||| path.len() == 0
    ||| path == ":memory:"@
    ||| crate::text::begins_with(path, "file::memory:"@)
}

/// Where the database of a path lives.
pub fn classify_target(path: &str) -> (r: Target)
    ensures
        r == if is_memory(path@) {
            Target::MemoryTempFile
        } else {
            Target::File
        },
{
    let chars = chars_of(path);
    if chars.len() == 0 || is_word(chars.as_slice(), ":memory:") || starts_with(
        chars.as_slice(),
        "file::memory:",
    ) {
        Target::MemoryTempFile
    } else {
        Target::File
    }
}

/// The name of the temporary file of a database in memory: the `n`th of the
/// process `pid`.
pub fn temp_db_name(pid: u32, n: u64) -> (r: String)
    ensures
        r@ == "litewire-mem-"@ + crate::text::decimal(pid as nat) + "-"@ + crate::text::decimal(
            n as nat,
        ) + ".sqlite"@,
{
    let mut name: String = "litewire-mem-".to_owned();
    push_decimal(&mut name, pid as u64);
    name.append("-");
    push_decimal(&mut name, n);
    name.append(".sqlite");
    name
}

/// SQLite's `synchronous` setting.
#[derive(Clone, Copy, Debug, PartialEq, Eq, Structural)]
pub enum Synchronous {
    /// Fastest, and unsafe against power loss.
    Off,
    /// The default, which suits a write-ahead log.
    Normal,
    /// Slowest.
    Full,
}

impl Synchronous {
    /// The setting as the `PRAGMA` takes it.
    pub fn as_pragma_str(self) -> (r: &'static str)
        ensures
            r@ == match self {
                Synchronous::Off => "OFF"@,
                Synchronous::Normal => "NORMAL"@,
                Synchronous::Full => "FULL"@,
            },
    {
        match self {
            Synchronous::Off => "OFF",
            Synchronous::Normal => "NORMAL",
            Synchronous::Full => "FULL",
        }
    }
}

/// The settings of a factory of sessions.
#[derive(Clone, Copy, Debug, PartialEq, Eq, Structural)]
pub struct RusqliteBuilder {
    pub target: Target,
    /// In milliseconds.
    pub busy_timeout_ms: u32,
    pub synchronous: Synchronous,
    /// The idle sessions that are kept; zero keeps none.
    pub max_idle: usize,
    /// The age at which an idle session is not reused any more.
    pub max_idle_age: Timeout,
}

impl RusqliteBuilder {
    /// The default settings for the database of a path: a session waits five
    /// seconds for a lock, and no session is reused.
    pub fn new(path: &str) -> (r: RusqliteBuilder)
        ensures
            r == (RusqliteBuilder {
                target: if is_memory(path@) {
                    Target::MemoryTempFile
                } else {
                    Target::File
                },
                busy_timeout_ms: 5000,
                synchronous: Synchronous::Normal,
                max_idle: 0,
                max_idle_age: Timeout { secs: 60, nanos: 0 },
            }),
    {
        RusqliteBuilder {
            target: classify_target(path),
            busy_timeout_ms: 5000,
            synchronous: Synchronous::Normal,
            max_idle: 0,
            max_idle_age: Timeout { secs: 60, nanos: 0 },
        }
    }

    /// Sets how long a session waits for a lock, in milliseconds.
    #[must_use]
    pub fn busy_timeout_ms(self, ms: u32) -> (r: RusqliteBuilder)
        ensures
            r == (RusqliteBuilder { busy_timeout_ms: ms, ..self }),
    {
        RusqliteBuilder { busy_timeout_ms: ms, ..self }
    }

    /// Sets the `synchronous` setting.
    #[must_use]
    pub fn synchronous(self, s: Synchronous) -> (r: RusqliteBuilder)
        ensures
            r == (RusqliteBuilder { synchronous: s, ..self }),
    {
        RusqliteBuilder { synchronous: s, ..self }
    }

    /// Keeps up to `max_idle` idle sessions for reuse. Zero keeps none.
    #[must_use]
    pub fn handle_reuse(self, max_idle: usize) -> (r: RusqliteBuilder)
        ensures
            r == (RusqliteBuilder { max_idle, ..self }),
    {
        RusqliteBuilder { max_idle, ..self }
    }

    /// Retires an idle session of this age rather than reuse it.
    #[must_use]
    pub fn idle_max_age(self, age: Timeout) -> (r: RusqliteBuilder)
        ensures
            r == (RusqliteBuilder { max_idle_age: age, ..self }),
    {
        RusqliteBuilder { max_idle_age: age, ..self }
    }

    /// The list of idle sessions, where any are kept. `pristine` is what the
    /// probe of [`fingerprint_sql`] gives on a connection that nothing has
    /// touched; without it no session could be told clean.
    pub fn build_pool<W>(&self, pristine: Option<i64>) -> (r: Result<
        Option<IdlePool<W>>,
        BackendError,
    >)
        ensures
            if self.max_idle == 0 {
                r matches Ok(pool) && pool is None
            } else {
                match pristine {
                    Some(p) => r matches Ok(Some(pool)) && is_new_pool(
                        pool,
                        self.max_idle,
                        nanos_of(self.max_idle_age),
                        p,
                    ),
                    None => r matches Err(BackendError::Sqlite(m)) && m@ == no_probe_text(),
                }
            },
    {
        if self.max_idle == 0 {
            return Ok(None);
        }
        match pristine {
            Some(p) => Ok(Some(IdlePool::new(self.max_idle, self.max_idle_age, p))),
            None => {
                let mut m: String =
                    "handle reuse enabled but the session-state fingerprint probe ".to_owned();
                m.append("did not run against this SQLite build");
                Err(BackendError::Sqlite(m))
            },
        }
    }
}

pub open spec fn no_probe_text() -> Seq<char> {
    "handle reuse enabled but the session-state fingerprint probe "@
        + "did not run against this SQLite build"@
}

/// The error of a statement whose session is gone.
pub fn worker_gone() -> (r: BackendError)
    ensures
        r matches BackendError::Other(m) && m@ == "SQLite session worker is no longer running"@,
{
    BackendError::Other("SQLite session worker is no longer running".to_owned())
}

/// The settings of a connection that the probe looks at.
pub open spec fn probed_setting(i: int) -> Seq<char> {
    if i == 0 {
        "query_only"@
    } else if i == 1 {
        "foreign_keys"@
    } else if i == 2 {
        "recursive_triggers"@
    } else if i == 3 {
        "defer_foreign_keys"@
    } else if i == 4 {
        "read_uncommitted"@
    } else if i == 5 {
        "reverse_unordered_selects"@
    } else if i == 6 {
        "cell_size_check"@
    } else if i == 7 {
        "automatic_index"@
    } else {
        "trusted_schema"@
    }
}

/// The number of settings that the probe looks at.
pub open spec fn probed_settings() -> nat {
    9
}

/// The weight of a setting that is on. The weights are powers of two.
pub open spec fn setting_weight(i: int) -> nat
    decreases i,
{
    if i <= 0 {
        1
    } else {
        2 * setting_weight(i - 1)
    }
}

/// The weight of a temporary object or an attached database. It is above that
/// of all settings together.
pub open spec fn object_weight() -> nat {
    1024
}

/// The probe's SQL with the terms of the first `n` settings.
pub open spec fn probe_text(n: int) -> Seq<char>
    decreases n,
{
    if n <= 0 {
        "SELECT "@ + crate::text::decimal(object_weight())
            + " * ((SELECT count(*) FROM sqlite_temp_master)"@
            + " + (SELECT count(*) FROM pragma_database_list WHERE name NOT IN ('main','temp')))"@
    } else {
        probe_text(n - 1) + " + "@ + crate::text::decimal(setting_weight(n - 1))
            + " * (SELECT * FROM pragma_"@ + probed_setting(n - 1) + ")"@
    }
}

fn setting_name(i: usize) -> (r: &'static str)
    requires
        i < probed_settings(),
    ensures
        r@ == probed_setting(i as int),
{
    if i == 0 {
        "query_only"
    } else if i == 1 {
        "foreign_keys"
    } else if i == 2 {
        "recursive_triggers"
    } else if i == 3 {
        "defer_foreign_keys"
    } else if i == 4 {
        "read_uncommitted"
    } else if i == 5 {
        "reverse_unordered_selects"
    } else if i == 6 {
        "cell_size_check"
    } else if i == 7 {
        "automatic_index"
    } else {
        "trusted_schema"
    }
}

proof fn lemma_weight_bound(i: int)
    requires
        i < probed_settings(),
    ensures
        setting_weight(i) <= 256,
{
    reveal_with_fuel(setting_weight, 9);
}

/// The SQL of the probe: it gives one number for what a client can have
/// changed of a connection. A connection is reused only where the number is
/// that of a connection which nothing has touched.
pub fn fingerprint_sql() -> (r: String)
    ensures
        r@ == probe_text(probed_settings() as int),
{
    let mut sql: String = "SELECT ".to_owned();
    push_decimal(&mut sql, 1024);
    sql.append(" * ((SELECT count(*) FROM sqlite_temp_master)");
    sql.append(
        " + (SELECT count(*) FROM pragma_database_list WHERE name NOT IN ('main','temp')))",
    );
    let mut weight: u64 = 1;
    for i in 0..9usize
        invariant
            sql@ == probe_text(i as int),
            weight == setting_weight(i as int),
    {
        proof {
            lemma_weight_bound(i as int);
        }
        sql.append(" + ");
        push_decimal(&mut sql, weight);
        sql.append(" * (SELECT * FROM pragma_");
        sql.append(setting_name(i));
        sql.append(")");
        weight = weight * 2;
    }
    sql
}

/// What the probe looks at.
pub struct ConnectionState {
    /// Temporary tables, views and triggers, and attached databases.
    pub objects: nat,
    /// The settings, in the order of [`probed_setting`].
    pub settings: Seq<bool>,
}

/// The number of the settings up to the `n`th.
pub open spec fn settings_number(settings: Seq<bool>, n: int) -> nat
    decreases n,
{
    if n <= 0 {
        0
    } else {
        settings_number(settings, n - 1) + if settings[n - 1] {
            setting_weight(n - 1)
        } else {
            0
        }
    }
}

/// The number that the probe gives.
pub open spec fn fingerprint(state: ConnectionState) -> nat {
    object_weight() * state.objects + settings_number(
        state.settings,
        probed_settings() as int,
    )
}

proof fn lemma_settings(a: Seq<bool>, b: Seq<bool>, n: int)
    requires
        0 <= n,
    ensures
        settings_number(a, n) < setting_weight(n),
        settings_number(a, n) == settings_number(b, n) ==> forall|i: int|
            0 <= i < n ==> a[i] == b[i],
    decreases n,
{
    if n > 0 {
        lemma_settings(a, b, n - 1);
        lemma_settings(b, a, n - 1);
    }
}

/// No combination of changes cancels out: the probe gives two connections the
/// same number only if they have the same settings and as many objects. In
/// particular a connection with the number of one without objects has none.
pub proof fn law_changes_do_not_cancel_out(a: ConnectionState, b: ConnectionState)
    requires
        a.settings.len() == probed_settings(),
        b.settings.len() == probed_settings(),
        fingerprint(a) == fingerprint(b),
    ensures
        a.settings == b.settings,
        a.objects == b.objects,
{
    lemma_settings(a.settings, b.settings, 9);
    lemma_settings(b.settings, a.settings, 9);
    reveal_with_fuel(setting_weight, 10);
    assert(a.objects == b.objects);
    assert(a.settings =~= b.settings);
}

/// What is known of a connection whose session has ended.
#[derive(Clone, Copy, Debug, PartialEq, Eq, Structural)]
pub enum ResetEvent {
    /// The session has ended; `autocommit` where it left no transaction open.
    Ended { autocommit: bool },
    /// The open transaction was rolled back, or could not be.
    RolledBack { done: bool },
    /// What the probe gave; `None` where it failed.
    Probed(Option<i64>),
    /// The last row id is zero again, and the lock timeout was set again or
    /// could not be.
    Restored { done: bool },
}

/// What is done with such a connection next.
#[derive(Clone, Copy, Debug, PartialEq, Eq, Structural)]
pub enum ResetAction {
    /// The open transaction is rolled back.
    RollBack,
    /// The probe is run.
    Probe,
    /// The last row id is set to zero and the lock timeout is set again.
    Restore,
    /// The connection is kept for reuse.
    Park,
    /// The connection is closed.
    Retire,
}

pub open spec fn reset_action(pristine: i64, event: ResetEvent) -> ResetAction {
    match event {
        ResetEvent::Ended { autocommit } => if autocommit {
            ResetAction::Probe
        } else {
            ResetAction::RollBack
        },
        ResetEvent::RolledBack { done } => if done {
            ResetAction::Probe
        } else {
            ResetAction::Retire
        },
        ResetEvent::Probed(found) => if found == Some(pristine) {
            ResetAction::Restore
        } else {
            ResetAction::Retire
        },
        ResetEvent::Restored { done } => if done {
            ResetAction::Park
        } else {
            ResetAction::Retire
        },
    }
}

/// A connection is kept only after the last row id and the lock timeout were
/// restored, they are restored only where the probe gave the number of an
/// untouched connection, and the probe is run only where no transaction is
/// open.
pub proof fn law_only_a_clean_connection_is_kept(pristine: i64, event: ResetEvent)
    ensures
        reset_action(pristine, event) == ResetAction::Park ==> event == (ResetEvent::Restored {
            done: true,
        }),
        reset_action(pristine, event) == ResetAction::Restore ==> event == ResetEvent::Probed(
            Some(pristine),
        ),
        reset_action(pristine, event) == ResetAction::Probe ==> event == (ResetEvent::Ended {
            autocommit: true,
        }) || event == (ResetEvent::RolledBack { done: true }),
{
}

/// An idle session.
#[derive(Debug)]
pub struct IdleWorker<W> {
    pub worker: W,
    /// When it became idle, in nanoseconds.
    pub since: u128,
}

/// The idle sessions that are kept for reuse, and how the reuse went. Times
/// are nanoseconds of one clock.
#[derive(Debug)]
pub struct IdlePool<W> {
    pub idle: VecDeque<IdleWorker<W>>,
    pub max_idle: usize,
    /// In nanoseconds.
    pub max_idle_age: u128,
    /// What the probe gives on a connection that nothing has touched.
    pub pristine: i64,
    pub hits: u64,
    pub misses: u64,
    pub returned: u64,
    pub discarded: u64,
    pub expired: u64,
}

/// How the reuse went. Every count but `idle` only grows, modulo two to the
/// sixty-fourth.
#[derive(Clone, Copy, Debug, PartialEq, Eq, Structural)]
pub struct ReuseStats {
    /// Sessions that began with an idle one.
    pub hits: u64,
    /// Sessions that had to be opened.
    pub misses: u64,
    /// Sessions that were kept at their end.
    pub returned: u64,
    /// Sessions that were closed at their end.
    pub discarded: u64,
    /// Idle sessions that were closed for their age.
    pub expired: u64,
    /// The idle sessions now.
    pub idle: usize,
}

impl Default for ReuseStats {
    fn default() -> (r: ReuseStats)
        ensures
            r == (ReuseStats {
                hits: 0,
                misses: 0,
                returned: 0,
                discarded: 0,
                expired: 0,
                idle: 0,
            }),
    {
        ReuseStats { hits: 0, misses: 0, returned: 0, discarded: 0, expired: 0, idle: 0 }
    }
}

pub open spec fn nanos_of(t: Timeout) -> int {
    t.secs * 1_000_000_000 + t.nanos
}

fn nanos(t: Timeout) -> (r: u128)
    ensures
        r == nanos_of(t),
{
    t.secs as u128 * 1_000_000_000 + t.nanos as u128
}

/// `pool` is empty and has counted nothing.
pub open spec fn is_new_pool<W>(
    pool: IdlePool<W>,
    max_idle: usize,
    max_idle_age: int,
    pristine: i64,
) -> bool {
    &&& pool.idle@.len() == 0
    &&& pool.max_idle == max_idle
    &&& pool.max_idle_age == max_idle_age
    &&& pool.pristine == pristine
    &&& pool.hits == 0
    &&& pool.misses == 0
    &&& pool.returned == 0
    &&& pool.discarded == 0
    &&& pool.expired == 0
}

/// An idle session is too old to be reused.
pub open spec fn is_stale(since: u128, now: u128, max_age: u128) -> bool {
    now - since >= max_age || (max_age == 0)
}

/// The number of idle sessions from the front on that are too old.
pub open spec fn stale_from_front<W>(
    idle: Seq<IdleWorker<W>>,
    now: u128,
    max_age: u128,
) -> nat
    decreases idle.len(),
{
    if idle.len() > 0 && is_stale(idle[0].since, now, max_age) {
        1 + stale_from_front(idle.skip(1), now, max_age)
    } else {
        0
    }
}

impl<W> IdlePool<W> {
    /// No more sessions are idle than may be.
    pub open spec fn wf(self) -> bool {
        self.idle@.len() <= self.max_idle
    }

    /// The settings that never change.
    pub open spec fn same_settings(self, other: IdlePool<W>) -> bool {
        &&& self.max_idle == other.max_idle
        &&& self.max_idle_age == other.max_idle_age
        &&& self.pristine == other.pristine
    }

    pub fn new(max_idle: usize, max_idle_age: Timeout, pristine: i64) -> (r: IdlePool<W>)
        ensures
            is_new_pool(r, max_idle, nanos_of(max_idle_age), pristine),
            r.wf(),
    {
        IdlePool {
            idle: VecDeque::new(),
            max_idle,
            max_idle_age: nanos(max_idle_age),
            pristine,
            hits: 0,
            misses: 0,
            returned: 0,
            discarded: 0,
            expired: 0,
        }
    }

    /// Takes the idle session that became idle last. Those that are too old
    /// are taken out first, from the front, and handed over to be closed.
    pub fn take(&mut self, now: u128) -> (r: (Option<W>, Vec<IdleWorker<W>>))
        requires
            old(self).wf(),
        ensures
            final(self).wf(),
            final(self).same_settings(*old(self)),
            final(self).returned == old(self).returned,
            final(self).discarded == old(self).discarded,
            r.1@ == old(self).idle@.take(
                stale_from_front(old(self).idle@, now, old(self).max_idle_age) as int,
            ),
            final(self).expired == (old(self).expired + r.1@.len()) % 0x1_0000_0000_0000_0000,
            ({
                let kept = old(self).idle@.skip(r.1@.len() as int);
                if kept.len() == 0 {
                    &&& r.0 is None
                    &&& final(self).idle@.len() == 0
                    &&& final(self).hits == old(self).hits
                    &&& final(self).misses == (old(self).misses + 1) % 0x1_0000_0000_0000_0000
                } else {
                    &&& r.0 == Some(kept.last().worker)
                    &&& final(self).idle@ == kept.drop_last()
                    &&& final(self).hits == (old(self).hits + 1) % 0x1_0000_0000_0000_0000
                    &&& final(self).misses == old(self).misses
                }
            }),
    {
        let ghost before = self.idle@;
        let ghost stale = stale_from_front(before, now, self.max_idle_age);
        let mut retired: Vec<IdleWorker<W>> = Vec::new();
        proof {
            lemma_stale_bound(before, now, self.max_idle_age);
            assert(before.take(0) =~= retired@);
            assert(before.skip(0) =~= before);
        }
        while self.idle.len() > 0 && self.front_is_stale(now)
            invariant
                before == old(self).idle@,
                stale == stale_from_front(before, now, old(self).max_idle_age),
                retired@.len() <= stale <= before.len(),
                before.len() <= old(self).max_idle,
                retired@ == before.take(retired@.len() as int),
                self.idle@ == before.skip(retired@.len() as int),
                stale == retired@.len() + stale_from_front(
                    self.idle@,
                    now,
                    old(self).max_idle_age,
                ),
                self.same_settings(*old(self)),
                self.hits == old(self).hits,
                self.misses == old(self).misses,
                self.returned == old(self).returned,
                self.discarded == old(self).discarded,
                self.expired == old(self).expired,
            decreases self.idle@.len(),
        {
            let ghost idle = self.idle@;
            let ghost n = retired@.len() as int;
            match self.idle.pop_front() {
                Some(w) => {
                    assert(w == before[n]);
                    retired.push(w);
                },
                None => {},
            }
            assert(self.idle@ =~= idle.skip(1));
            assert(self.idle@ =~= before.skip(n + 1));
            assert(retired@ =~= before.take(n + 1));
        }
        self.expired = wrapped(self.expired, retired.len() as u64);
        let ghost kept = self.idle@;
        match self.idle.pop_back() {
            Some(w) => {
                self.hits = wrapped(self.hits, 1);
                assert(self.idle@ =~= kept.drop_last());
                (Some(w.worker), retired)
            },
            None => {
                self.misses = wrapped(self.misses, 1);
                (None, retired)
            },
        }
    }

    fn front_is_stale(&self, now: u128) -> (r: bool)
        requires
            self.idle@.len() > 0,
        ensures
            r == is_stale(self.idle@[0].since, now, self.max_idle_age),
    {
        let since = self.idle[0].since;
        if now >= since {
            now - since >= self.max_idle_age
        } else {
            self.max_idle_age == 0
        }
    }

    /// Whether a session that has ended is worth cleaning: it is not where
    /// there is no room for it, and is then to be closed.
    pub fn has_room(&mut self) -> (r: bool)
        requires
            old(self).wf(),
        ensures
            r == (old(self).idle@.len() < old(self).max_idle),
            final(self).idle@ == old(self).idle@,
            final(self).same_settings(*old(self)),
            final(self).same_counts(*old(self), 0, if r {
                0
            } else {
                1
            }),
    {
        if self.idle.len() < self.max_idle {
            true
        } else {
            self.discarded = wrapped(self.discarded, 1);
            false
        }
    }

    /// The counts of `other`, with so many more kept and closed.
    pub open spec fn same_counts(self, other: IdlePool<W>, returned: nat, discarded: nat) -> bool {
        &&& self.hits == other.hits
        &&& self.misses == other.misses
        &&& self.expired == other.expired
        &&& self.returned == (other.returned + returned) % 0x1_0000_0000_0000_0000
        &&& self.discarded == (other.discarded + discarded) % 0x1_0000_0000_0000_0000
    }

    /// What is done next with a connection whose session has ended. Of one
    /// that is to be closed, this is counted.
    pub fn reset(&mut self, event: ResetEvent) -> (r: ResetAction)
        requires
            old(self).wf(),
        ensures
            r == reset_action(old(self).pristine, event),
            final(self).idle@ == old(self).idle@,
            final(self).same_settings(*old(self)),
            final(self).same_counts(*old(self), 0, if r == ResetAction::Retire {
                1
            } else {
                0
            }),
    {
        let action = match event {
            ResetEvent::Ended { autocommit } => if autocommit {
                ResetAction::Probe
            } else {
                ResetAction::RollBack
            },
            ResetEvent::RolledBack { done } => if done {
                ResetAction::Probe
            } else {
                ResetAction::Retire
            },
            ResetEvent::Probed(found) => match found {
                Some(n) => if n == self.pristine {
                    ResetAction::Restore
                } else {
                    ResetAction::Retire
                },
                None => ResetAction::Retire,
            },
            ResetEvent::Restored { done } => if done {
                ResetAction::Park
            } else {
                ResetAction::Retire
            },
        };
        if action == ResetAction::Retire {
            self.discarded = wrapped(self.discarded, 1);
        }
        action
    }

    /// Keeps a session that is clean. Where there is no room for it after
    /// all, it is handed back to be closed.
    pub fn park(&mut self, worker: W, now: u128) -> (r: Option<W>)
        requires
            old(self).wf(),
        ensures
            final(self).wf(),
            final(self).same_settings(*old(self)),
            if old(self).idle@.len() < old(self).max_idle {
                &&& r is None
                &&& final(self).idle@ == old(self).idle@.push(IdleWorker { worker, since: now })
                &&& final(self).same_counts(*old(self), 1, 0)
            } else {
                &&& r == Some(worker)
                &&& final(self).idle@ == old(self).idle@
                &&& final(self).same_counts(*old(self), 0, 1)
            },
    {
        if self.idle.len() < self.max_idle {
            self.idle.push_back(IdleWorker { worker, since: now });
            self.returned = wrapped(self.returned, 1);
            None
        } else {
            self.discarded = wrapped(self.discarded, 1);
            Some(worker)
        }
    }

    /// How the reuse went.
    #[must_use]
    pub fn reuse_stats(&self) -> (r: ReuseStats)
        ensures
            r == (ReuseStats {
                hits: self.hits,
                misses: self.misses,
                returned: self.returned,
                discarded: self.discarded,
                expired: self.expired,
                idle: self.idle@.len() as usize,
            }),
    {
        ReuseStats {
            hits: self.hits,
            misses: self.misses,
            returned: self.returned,
            discarded: self.discarded,
            expired: self.expired,
            idle: self.idle.len(),
        }
    }
}

fn wrapped(n: u64, more: u64) -> (r: u64)
    ensures
        r == (n + more) % 0x1_0000_0000_0000_0000,
{
    n.wrapping_add(more)
}

proof fn lemma_stale_bound<W>(idle: Seq<IdleWorker<W>>, now: u128, max_age: u128)
    ensures
        stale_from_front(idle, now, max_age) <= idle.len(),
    decreases idle.len(),
{
    if idle.len() > 0 {
        lemma_stale_bound(idle.skip(1), now, max_age);
    }
}

/// The sessions became idle in the order of the list.
pub open spec fn in_order<W>(idle: Seq<IdleWorker<W>>) -> bool {
    forall|i: int, j: int|
        0 <= i <= j < idle.len() ==> (#[trigger] idle[i]).since <= (#[trigger] idle[j]).since
}

/// Where sessions became idle in the order of the list, none that is too old
/// is reused: the one that is taken last of those that are left is not.
pub proof fn law_no_stale_session_is_reused<W>(
    idle: Seq<IdleWorker<W>>,
    now: u128,
    max_age: u128,
)
    requires
        in_order(idle),
    ensures
        ({
            let kept = idle.skip(stale_from_front(idle, now, max_age) as int);
            kept.len() > 0 ==> !is_stale(kept.last().since, now, max_age)
        }),
    decreases idle.len(),
{
    lemma_stale_bound(idle, now, max_age);
    if idle.len() > 0 && is_stale(idle[0].since, now, max_age) {
        let rest = idle.skip(1);
        assert forall|i: int, j: int| 0 <= i <= j < rest.len() implies (#[trigger] rest[i]).since
            <= (#[trigger] rest[j]).since by {
            assert(rest[i] == idle[i + 1]);
            assert(rest[j] == idle[j + 1]);
        }
        law_no_stale_session_is_reused(rest, now, max_age);
        lemma_stale_bound(rest, now, max_age);
        let n = stale_from_front(rest, now, max_age) as int;
        assert(idle.skip(n + 1) =~= rest.skip(n));
    } else if idle.len() > 0 {
        assert(idle.skip(0) =~= idle);
        assert(idle[0].since <= idle[idle.len() - 1].since);
    }
}

/// A session that is taken for reuse is not in the list any more, so no two
/// clients have the same one.
pub proof fn law_taken_session_leaves_the_list<W>(kept: Seq<IdleWorker<W>>)
    requires
        kept.len() > 0,
        forall|i: int, j: int|
            0 <= i < j < kept.len() ==> (#[trigger] kept[i]).worker != (
            #[trigger] kept[j]).worker,
    ensures
        forall|i: int|
            0 <= i < kept.drop_last().len() ==> (#[trigger] kept.drop_last()[i]).worker
                != kept.last().worker,
{
}

/// Every session that has ended is either kept or closed, and one of the two
/// is counted.
pub proof fn law_every_end_is_counted<W>(before: IdlePool<W>, after: IdlePool<W>, parked: bool)
    requires
        before.returned < u64::MAX,
        before.discarded < u64::MAX,
        if parked {
            after.same_counts(before, 1, 0)
        } else {
            after.same_counts(before, 0, 1)
        },
    ensures
        after.returned + after.discarded == before.returned + before.discarded + 1,
{
}

} // verus!
