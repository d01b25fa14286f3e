//! What holds of a session of SQLite's and of the list of idle ones, whatever
//! is run.
use crate::backend::rusqlite_backend::{
    classify_target, coerce_text, execute_result, extract_value, fingerprint_sql, regexp, IdlePool,
    IdleWorker, RawValue, ResetAction, ResetEvent, RusqliteBuilder, Synchronous, Target,
};
use crate::backend::write_admission::Timeout;
use crate::backend::{BackendError, ExecuteResult, Value};
use vstd::prelude::*;

verus! {

/// A value is taken for what it is: numbers, bytes and nulls as they are, a
/// text whose bytes are the UTF-8 of a text as that text, whatever it says,
/// and any other text as its bytes.
pub proof fn law_values_are_taken_as_they_are(raw: RawValue, r: Value, s: Seq<char>)
    requires
        call_ensures(extract_value, (raw,), r),
    ensures
        match raw {
            RawValue::Null => r@ is Null,
            RawValue::Integer(i) => r@ is Integer && r@->Integer_0 == i,
            RawValue::Real(d) => r@ is Float && r@->Float_0 == d@,
            RawValue::Text(b) => {
                &&& b@ == vstd::utf8::encode_utf8(s) ==> r@ == crate::backend::Datum::Text(s)
                &&& (forall|t: Seq<char>| b@ != #[trigger] vstd::utf8::encode_utf8(t)) ==> r@
                    == crate::backend::Datum::Blob(b@)
            },
            RawValue::Blob(b) => r@ is Blob && r@->Blob_0 == b@,
        },
{
    if let RawValue::Text(b) = raw {
        if b@ == vstd::utf8::encode_utf8(s) {
            vstd::utf8::encode_utf8_valid_utf8(s);
            vstd::utf8::encode_utf8_decode_utf8(s);
            vstd::utf8::encode_utf8_decode_utf8(r@->Text_0);
        }
        if vstd::utf8::valid_utf8(b@) {
            vstd::utf8::decode_utf8_encode_utf8(b@);
            assert(b@ == vstd::utf8::encode_utf8(vstd::utf8::decode_utf8(b@)));
        }
    }
}

/// `REGEXP` of two texts is what the pattern makes of the other, and of a
/// null on either side is null, even where the pattern does not compile.
pub proof fn law_regexp_matches_the_text(
    pattern: RawValue,
    haystack: RawValue,
    r: Result<Option<bool>, regex::Error>,
    p: Seq<char>,
    h: Seq<char>,
)
    requires
        call_ensures(regexp, (&pattern, &haystack), r),
    ensures
        pattern is Null || haystack is Null ==> r is Ok && r->Ok_0 is None,
        (pattern matches RawValue::Text(b) && b@ == vstd::utf8::encode_utf8(p)) && (haystack
            matches RawValue::Text(c) && c@ == vstd::utf8::encode_utf8(h)) ==> {
            &&& r is Err <==> !crate::backend::rusqlite_backend::compiles(p)
            &&& r matches Ok(found) ==> found == Some(
                crate::backend::rusqlite_backend::matches_in(p, h),
            )
        },
{
    vstd::utf8::encode_utf8_valid_utf8(p);
    vstd::utf8::encode_utf8_valid_utf8(h);
    vstd::utf8::encode_utf8_decode_utf8(p);
    vstd::utf8::encode_utf8_decode_utf8(h);
    if pattern is Text && haystack is Text {
        vstd::utf8::encode_utf8_decode_utf8(
            crate::backend::rusqlite_backend::pattern_text(pattern),
        );
        vstd::utf8::encode_utf8_decode_utf8(
            crate::backend::rusqlite_backend::regexp_text(haystack)->0,
        );
    }
}

/// A database is in memory where its path is empty, is `:memory:`, or is
/// `file::memory:` and something; and is in a file else, whatever the path
/// holds.
pub proof fn law_memory_paths(path: &str, r: Target)
    requires
        call_ensures(classify_target, (path,), r),
    ensures
        r == Target::MemoryTempFile <==> {
            ||| path@.len() == 0
            ||| path@ == ":memory:"@
            ||| exists|rest: Seq<char>| #[trigger] ("file::memory:"@ + rest) == path@
        },
{
    let marker = "file::memory:"@;
    let n = marker.len() as int;
    if crate::text::begins_with(path@, marker) {
        assert(path@.subrange(0, n) == marker);
        assert(marker + path@.skip(n) =~= path@);
    }
    if exists|rest: Seq<char>| #[trigger] (marker + rest) == path@ {
        let rest = choose|rest: Seq<char>| #[trigger] (marker + rest) == path@;
        assert(path@.subrange(0, n) =~= marker);
    }
}

/// What is done next with a connection whose session has ended: an open
/// transaction is rolled back, the probe is run where none is open, the
/// connection is restored where the probe gave the number of an untouched one,
/// and it is kept where that was done. In any other case it is closed, and
/// counted as closed; the idle sessions are left alone.
pub proof fn law_reset_steps<W>(pool: &mut IdlePool<W>, event: ResetEvent, r: ResetAction)
    requires
        old(pool).wf(),
        call_ensures(IdlePool::<W>::reset, (pool, event), r),
    ensures
        match event {
            ResetEvent::Ended { autocommit } => r == if autocommit {
                ResetAction::Probe
            } else {
                ResetAction::RollBack
            },
            ResetEvent::RolledBack { done } => r == if done {
                ResetAction::Probe
            } else {
                ResetAction::Retire
            },
            ResetEvent::Probed(found) => r == if found == Some(old(pool).pristine) {
                ResetAction::Restore
            } else {
                ResetAction::Retire
            },
            ResetEvent::Restored { done } => r == if done {
                ResetAction::Park
            } else {
                ResetAction::Retire
            },
        },
        final(pool).idle@ == old(pool).idle@,
        old(pool).discarded < u64::MAX ==> final(pool).discarded == old(pool).discarded + (if r
            == ResetAction::Retire {
            1int
        } else {
            0
        }),
{
}

/// Taking a session splits the idle ones: those that are handed over to be
/// closed are the first of them and all too old, the session that is taken is
/// the last, and the others stay in their order. Where sessions became idle
/// in the order of the list, the one that is taken is not too old, and none
/// is refused that could be taken.
pub proof fn law_taking_splits_the_list<W>(
    pool: &mut IdlePool<W>,
    now: u128,
    r: (Option<W>, Vec<IdleWorker<W>>),
)
    requires
        old(pool).wf(),
        call_ensures(IdlePool::<W>::take, (pool, now), r),
    ensures
        forall|i: int|
            0 <= i < r.1@.len() ==> now - (#[trigger] r.1@[i]).since >= old(pool).max_idle_age || old(
                pool,
            ).max_idle_age == 0,
        r.0 is None ==> r.1@ == old(pool).idle@ && final(pool).idle@.len() == 0,
        r.0 matches Some(w) ==> {
            &&& old(pool).idle@.len() > 0
            &&& w == old(pool).idle@.last().worker
            &&& old(pool).idle@ == r.1@ + final(pool).idle@.push(old(pool).idle@.last())
            &&& crate::backend::rusqlite_backend::in_order(old(pool).idle@) ==> now
                - old(pool).idle@.last().since < old(pool).max_idle_age
        },
{
    let idle = old(pool).idle@;
    let age = old(pool).max_idle_age;
    let n = crate::backend::rusqlite_backend::stale_from_front(idle, now, age);
    lemma_stale(idle, now, age);
    if crate::backend::rusqlite_backend::in_order(idle) {
        crate::backend::rusqlite_backend::law_no_stale_session_is_reused(idle, now, age);
    }
    let kept = idle.skip(r.1@.len() as int);
    assert(r.1@.len() == n);
    if kept.len() == 0 {
        assert(r.1@ =~= idle);
    } else {
        assert(kept.last() == idle.last());
        assert(idle =~= r.1@ + kept.drop_last().push(kept.last()));
    }
}

proof fn lemma_stale<W>(idle: Seq<IdleWorker<W>>, now: u128, age: u128)
    ensures
        ({
            let n = crate::backend::rusqlite_backend::stale_from_front(idle, now, age);
            &&& n <= idle.len()
            &&& forall|i: int|
                0 <= i < n ==> now - (#[trigger] idle[i]).since >= age || age == 0
        }),
    decreases idle.len(),
{
    if idle.len() > 0 {
        let rest = idle.skip(1);
        lemma_stale(rest, now, age);
        let n = crate::backend::rusqlite_backend::stale_from_front(idle, now, age);
        assert forall|i: int| 0 <= i < n implies now - (#[trigger] idle[i]).since >= age || age
            == 0 by {
            if i > 0 {
                assert(rest[i - 1] == idle[i]);
            }
        }
    }
}

/// The probe looks at temporary objects and attached databases, and at each
/// of the nine settings of a connection that a client can change, each with a
/// weight of its own.
pub proof fn law_probe_looks_at_everything(r: String)
    requires
        call_ensures(fingerprint_sql, (), r),
    ensures
        exists|rest: Seq<char>|
            #[trigger] ("SELECT "@ + crate::text::decimal(1024)
                + " * ((SELECT count(*) FROM sqlite_temp_master)"@ + rest) == r@,
        crate::text::occurs(r@, "(SELECT count(*) FROM sqlite_temp_master)"@),
        crate::text::occurs(
            r@,
            " + (SELECT count(*) FROM pragma_database_list WHERE name NOT IN ('main','temp')))"@,
        ),
        looks_at(r@, 1, "query_only"@),
        looks_at(r@, 2, "foreign_keys"@),
        looks_at(r@, 4, "recursive_triggers"@),
        looks_at(r@, 8, "defer_foreign_keys"@),
        looks_at(r@, 16, "read_uncommitted"@),
        looks_at(r@, 32, "reverse_unordered_selects"@),
        looks_at(r@, 64, "cell_size_check"@),
        looks_at(r@, 128, "automatic_index"@),
        looks_at(r@, 256, "trusted_schema"@),
{
    lemma_looks_at(9, 0);
    lemma_looks_at(9, 1);
    lemma_looks_at(9, 2);
    lemma_looks_at(9, 3);
    lemma_looks_at(9, 4);
    lemma_looks_at(9, 5);
    lemma_looks_at(9, 6);
    lemma_looks_at(9, 7);
    lemma_looks_at(9, 8);
    lemma_probe_front(9);
    reveal_with_fuel(crate::backend::rusqlite_backend::setting_weight, 9);
    let weight = crate::text::decimal(crate::backend::rusqlite_backend::object_weight());
    let a = "SELECT "@ + weight + " * ("@;
    let temp = "(SELECT count(*) FROM sqlite_temp_master)"@;
    let attached =
        " + (SELECT count(*) FROM pragma_database_list WHERE name NOT IN ('main','temp')))"@;
    let front = "SELECT "@ + weight + " * ((SELECT count(*) FROM sqlite_temp_master)"@;
    let rest = choose|rest: Seq<char>|
        #[trigger] (crate::backend::rusqlite_backend::probe_text(0) + rest) == r@;
    reveal_strlit(" * (");
    reveal_strlit("(SELECT count(*) FROM sqlite_temp_master)");
    reveal_strlit(" * ((SELECT count(*) FROM sqlite_temp_master)");
    assert(" * ((SELECT count(*) FROM sqlite_temp_master)"@ =~= " * ("@ + temp);
    assert(r@ =~= a + temp + (attached + rest));
    assert(r@ =~= front + attached + rest);
    assert(r@ =~= front + (attached + rest));
    crate::text_laws::law_occurs_between(r@, temp);
    crate::text_laws::law_occurs_between(r@, attached);
}

/// The SQL adds a setting, with this weight.
pub open spec fn looks_at(sql: Seq<char>, weight: nat, setting: Seq<char>) -> bool {
    crate::text::occurs(
        sql,
        " + "@ + crate::text::decimal(weight) + " * (SELECT * FROM pragma_"@ + setting + ")"@,
    )
}

proof fn lemma_looks_at(n: int, i: int)
    requires
        0 <= i < n,
    ensures
        looks_at(
            crate::backend::rusqlite_backend::probe_text(n),
            crate::backend::rusqlite_backend::setting_weight(i),
            crate::backend::rusqlite_backend::probed_setting(i),
        ),
    decreases n,
{
    let sql = crate::backend::rusqlite_backend::probe_text(n);
    let before = crate::backend::rusqlite_backend::probe_text(n - 1);
    let last = " + "@ + crate::text::decimal(
        crate::backend::rusqlite_backend::setting_weight(n - 1),
    ) + " * (SELECT * FROM pragma_"@ + crate::backend::rusqlite_backend::probed_setting(n - 1)
        + ")"@;
    assert(sql =~= before + last);
    if i == n - 1 {
        assert(before + last + Seq::<char>::empty() =~= sql);
        crate::text_laws::law_occurs_between(sql, last);
    } else {
        lemma_looks_at(n - 1, i);
        let term = " + "@ + crate::text::decimal(
            crate::backend::rusqlite_backend::setting_weight(i),
        ) + " * (SELECT * FROM pragma_"@ + crate::backend::rusqlite_backend::probed_setting(i)
            + ")"@;
        crate::text_laws::law_occurs_between(before, term);
        let (a, b) = choose|a: Seq<char>, b: Seq<char>| #[trigger] (a + term + b) == before;
        assert(a + term + (b + last) =~= sql);
        crate::text_laws::law_occurs_between(sql, term);
    }
}

proof fn lemma_probe_front(n: int)
    requires
        0 <= n,
    ensures
        exists|rest: Seq<char>|
            #[trigger] (crate::backend::rusqlite_backend::probe_text(0) + rest)
                == crate::backend::rusqlite_backend::probe_text(n),
    decreases n,
{
    let sql = crate::backend::rusqlite_backend::probe_text(n);
    let base = crate::backend::rusqlite_backend::probe_text(0);
    if n == 0 {
        assert(base + Seq::<char>::empty() =~= sql);
    } else {
        lemma_probe_front(n - 1);
        let before = crate::backend::rusqlite_backend::probe_text(n - 1);
        let rest = choose|rest: Seq<char>| #[trigger] (base + rest) == before;
        let more = sql.skip(before.len() as int);
        assert(sql =~= before + more);
        assert(base + (rest + more) =~= sql);
    }
}

/// A list of idle sessions counts ages in nanoseconds.
pub proof fn law_ages_are_nanoseconds<W>(
    max_idle: usize,
    age: Timeout,
    pristine: i64,
    r: IdlePool<W>,
)
    requires
        call_ensures(IdlePool::<W>::new, (max_idle, age, pristine), r),
    ensures
        r.max_idle_age == 1_000_000_000 * age.secs + age.nanos,
        r.max_idle == max_idle,
        r.pristine == pristine,
        r.idle@.len() == 0,
        r.hits == 0 && r.misses == 0 && r.returned == 0 && r.discarded == 0 && r.expired == 0,
{
}

/// A session that is kept is the next that is taken, where there was room for
/// it and it has not become too old; where there is no room it is handed back.
pub proof fn law_kept_session_is_taken_next<W>(
    kept: &mut IdlePool<W>,
    taken: &mut IdlePool<W>,
    worker: W,
    now: u128,
    later: u128,
    back: Option<W>,
    r: (Option<W>, Vec<IdleWorker<W>>),
)
    requires
        old(kept).wf(),
        call_ensures(IdlePool::<W>::park, (kept, worker, now), back),
        *old(taken) == *final(kept),
        call_ensures(IdlePool::<W>::take, (taken, later), r),
    ensures
        back is None <==> old(kept).idle@.len() < old(kept).max_idle,
        back matches Some(w) ==> w == worker && final(kept).idle@ == old(kept).idle@,
        back is None && now <= later && later - now < old(kept).max_idle_age ==> r.0 == Some(
            worker,
        ),
{
    if back is None && now <= later && later - now < old(kept).max_idle_age {
        let idle = old(taken).idle@;
        assert(idle.last() == (IdleWorker { worker, since: now }));
        lemma_stale(idle, later, old(taken).max_idle_age);
        let n = crate::backend::rusqlite_backend::stale_from_front(
            idle,
            later,
            old(taken).max_idle_age,
        );
        if n == idle.len() {
            assert(later - idle[n - 1].since >= old(taken).max_idle_age);
        }
        let left = idle.skip(n as int);
        assert(left.last() == idle.last());
    }
}

/// `REGEXP` reads a number as its decimal text and a text as itself; a null
/// has none.
pub proof fn law_regexp_reads_text(value: RawValue, r: Option<String>, s: Seq<char>)
    requires
        call_ensures(coerce_text, (&value,), r),
    ensures
        r is None <==> value is Null,
        value matches RawValue::Integer(i) ==> crate::text::i64_value(r->0@) == Some(i),
        value matches RawValue::Real(d) ==> r->0@ == d.text@,
        value matches RawValue::Text(b) ==> (b@ == vstd::utf8::encode_utf8(s) ==> r->0@ == s),
        value matches RawValue::Blob(b) ==> (b@ == vstd::utf8::encode_utf8(s) ==> r->0@ == s),
{
    vstd::utf8::encode_utf8_valid_utf8(s);
    vstd::utf8::encode_utf8_decode_utf8(s);
    if let Some(t) = r {
        vstd::utf8::encode_utf8_decode_utf8(t@);
    }
    if let RawValue::Integer(i) = value {
        crate::text::law_decimal_reads_back(i);
    }
}

/// A connection that has inserted nothing tells no row id, and any other the
/// one that it has.
pub proof fn law_row_ids(affected: usize, id: i64, r: ExecuteResult)
    requires
        call_ensures(execute_result, (affected, id), r),
    ensures
        r.affected_rows == affected,
        id == 0 ==> r.last_insert_rowid is None,
        id != 0 ==> r.last_insert_rowid == Some(id),
{
}

/// Every taking is counted: as a hit where a session was taken and as a miss
/// where none was, and every session that is handed over to be closed as
/// expired. Nothing else is counted then.
pub proof fn law_takings_are_counted<W>(
    pool: &mut IdlePool<W>,
    now: u128,
    r: (Option<W>, Vec<IdleWorker<W>>),
)
    requires
        old(pool).wf(),
        call_ensures(IdlePool::<W>::take, (pool, now), r),
        old(pool).hits < u64::MAX,
        old(pool).misses < u64::MAX,
        old(pool).expired + old(pool).idle@.len() <= u64::MAX,
    ensures
        final(pool).hits == old(pool).hits + (if r.0 is Some { 1int } else { 0 }),
        final(pool).misses == old(pool).misses + (if r.0 is None { 1int } else { 0 }),
        final(pool).expired == old(pool).expired + r.1@.len(),
        final(pool).returned == old(pool).returned,
        final(pool).discarded == old(pool).discarded,
{
    lemma_stale(old(pool).idle@, now, old(pool).max_idle_age);
}

/// Every session that has ended is counted once, as kept or as closed.
pub proof fn law_ends_are_counted<W>(
    kept: &mut IdlePool<W>,
    full: &mut IdlePool<W>,
    worker: W,
    now: u128,
    back: Option<W>,
    room: bool,
)
    requires
        old(kept).wf(),
        old(full).wf(),
        call_ensures(IdlePool::<W>::park, (kept, worker, now), back),
        call_ensures(IdlePool::<W>::has_room, (full,), room),
        old(kept).returned < u64::MAX,
        old(kept).discarded < u64::MAX,
        old(full).discarded < u64::MAX,
    ensures
        final(kept).returned == old(kept).returned + (if back is None { 1int } else { 0 }),
        final(kept).discarded == old(kept).discarded + (if back is None { 0int } else { 1 }),
        room <==> old(full).idle@.len() < old(full).max_idle,
        final(full).discarded == old(full).discarded + (if room { 0int } else { 1 }),
        final(full).returned == old(full).returned,
{
}

/// Unless told otherwise a session waits five seconds for a lock, writes
/// through at normal safety, and is not reused; told otherwise, one setting
/// changes and the others stay.
pub proof fn law_settings(
    path: &str,
    b: RusqliteBuilder,
    ms: u32,
    s: Synchronous,
    n: usize,
    age: Timeout,
    r: (RusqliteBuilder, RusqliteBuilder, RusqliteBuilder, RusqliteBuilder),
)
    requires
        call_ensures(RusqliteBuilder::new, (path,), b),
        call_ensures(RusqliteBuilder::busy_timeout_ms, (b, ms), r.0),
        call_ensures(RusqliteBuilder::synchronous, (r.0, s), r.1),
        call_ensures(RusqliteBuilder::handle_reuse, (r.1, n), r.2),
        call_ensures(RusqliteBuilder::idle_max_age, (r.2, age), r.3),
    ensures
        b.busy_timeout_ms == 5000,
        b.synchronous is Normal,
        b.max_idle == 0,
        b.max_idle_age.secs == 60 && b.max_idle_age.nanos == 0,
        r.3.target == b.target,
        r.3.busy_timeout_ms == ms,
        r.3.synchronous == s,
        r.3.max_idle == n,
        r.3.max_idle_age == age,
        r.0.synchronous is Normal && r.0.max_idle == 0 && r.1.max_idle == 0,
        r.2.max_idle_age == b.max_idle_age,
{
}

/// The safety settings by the words that SQLite takes.
pub proof fn law_safety_words(s: Synchronous, r: &'static str)
    requires
        call_ensures(Synchronous::as_pragma_str, (s,), r),
    ensures
        s is Off ==> r@ == "OFF"@,
        s is Normal ==> r@ == "NORMAL"@,
        s is Full ==> r@ == "FULL"@,
{
}

/// Where no sessions are reused there is no list of idle ones; where they
/// are, there is one only if an untouched connection could be probed.
pub proof fn law_reuse_needs_a_probe<W>(
    b: RusqliteBuilder,
    pristine: Option<i64>,
    r: Result<Option<IdlePool<W>>, BackendError>,
)
    requires
        call_ensures(RusqliteBuilder::build_pool::<W>, (&b, pristine), r),
    ensures
        b.max_idle == 0 ==> r is Ok && r->Ok_0 is None,
        b.max_idle > 0 && pristine is None ==> r is Err,
        b.max_idle > 0 ==> (pristine matches Some(p) ==> r is Ok && (r->Ok_0 matches Some(pool)
            && pool.pristine == p && pool.max_idle == b.max_idle && pool.idle@.len() == 0)),
{
}

} // verus!
