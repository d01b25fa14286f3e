//! Backend error messages as MySQL errors.
//!
//! A backend's error is a text, so the kind of error is found by what the
//! text says. A text that says nothing known becomes `ER_UNKNOWN_ERROR`, with
//! the text kept.
use crate::text::{chars_of, contains, last_at, lower_chars, string_of, trimmed};
use vstd::prelude::*;
use vstd::slice::slice_subrange;

verus! {

/// Duplicate key on a unique index or primary key.
pub const ER_DUP_ENTRY: u16 = 1062;

/// The fallback.
pub const ER_UNKNOWN_ERROR: u16 = 1105;

/// The table does not exist.
pub const ER_NO_SUCH_TABLE: u16 = 1146;

/// Lock wait timeout exceeded.
pub const ER_LOCK_WAIT_TIMEOUT: u16 = 1205;

/// The server is read-only.
pub const ER_OPTION_PREVENTS_STATEMENT: u16 = 1290;

/// Foreign key constraint failure.
pub const ER_NO_REFERENCED_ROW_2: u16 = 1452;

/// A MySQL error: code, SQLSTATE and message.
#[derive(Debug, Clone)]
pub struct MappedError {
    pub code: u16,
    pub sqlstate: [u8; 5],
    /// The backend's text, with a MySQL-shaped prefix for a duplicate key.
    pub message: String,
}

/// `HY000`.
pub open spec fn general_state() -> Seq<u8> {
    seq![72u8, 89u8, 48u8, 48u8, 48u8]
}

/// `42S02`.
pub open spec fn no_table_state() -> Seq<u8> {
    seq![52u8, 50u8, 83u8, 48u8, 50u8]
}

/// `23000`.
pub open spec fn constraint_state() -> Seq<u8> {
    seq![50u8, 51u8, 48u8, 48u8, 48u8]
}

/// `msg` says `words`, in whatever case.
pub open spec fn says(msg: Seq<char>, words: Seq<char>) -> bool {
    crate::text::occurs(crate::text::lower(msg), words)
}

pub open spec fn says_locked(msg: Seq<char>) -> bool {
    ||| says(msg, "database is locked"@)
    ||| says(msg, "database table is locked"@)
    ||| says(msg, "sqlite_busy"@)
    ||| says(msg, "sqlite_locked"@)
}

pub open spec fn says_duplicate(msg: Seq<char>) -> bool {
    says(msg, "unique constraint failed"@) || says(msg, "primary key constraint failed"@)
}

pub open spec fn says_readonly(msg: Seq<char>) -> bool {
    ||| says(msg, "attempt to write a readonly database"@)
    ||| says(msg, "readonly database"@)
    ||| says(msg, "sqlite_readonly"@)
}

/// The code of a message.
pub open spec fn code_of(msg: Seq<char>) -> u16 {
    if says_locked(msg) {
        ER_LOCK_WAIT_TIMEOUT
    } else if says(msg, "no such table"@) {
        ER_NO_SUCH_TABLE
    } else if says_duplicate(msg) {
        ER_DUP_ENTRY
    } else if says(msg, "foreign key constraint failed"@) {
        ER_NO_REFERENCED_ROW_2
    } else if says_readonly(msg) {
        ER_OPTION_PREVENTS_STATEMENT
    } else {
        ER_UNKNOWN_ERROR
    }
}

/// The SQLSTATE of a code.
pub open spec fn state_of(code: u16) -> Seq<u8> {
    if code == ER_NO_SUCH_TABLE {
        no_table_state()
    } else if code == ER_DUP_ENTRY || code == ER_NO_REFERENCED_ROW_2 {
        constraint_state()
    } else {
        general_state()
    }
}

/// The key of a duplicate: what follows the last `constraint failed: `.
pub open spec fn duplicate_key(msg: Seq<char>) -> Option<Seq<char>> {
    match crate::text::find_last(crate::text::lower(msg), "constraint failed: "@) {
        Some(at) => {
            let key = crate::text::trim(msg.skip(at + "constraint failed: "@.len()));
            if key.len() == 0 {
                None
            } else {
                Some(key)
            }
        },
        None => None,
    }
}

/// The message of a duplicate, in MySQL's shape where a key is named. SQLite
/// does not tell the value, so its place is marked.
pub open spec fn duplicate_text(msg: Seq<char>) -> Seq<char> {
    match duplicate_key(msg) {
        Some(key) => "Duplicate entry '<unknown>' for key '"@ + key + "' ("@ + msg + ")"@,
        None => msg,
    }
}

/// The message of a message.
pub open spec fn message_of(msg: Seq<char>) -> Seq<char> {
    if code_of(msg) == ER_DUP_ENTRY {
        duplicate_text(msg)
    } else {
        msg
    }
}

/// SQLite's message for a duplicate key in MySQL's shape, which drivers look
/// for. SQLite's own words follow in parentheses.
pub fn duplicate_entry_message(err_msg: &str) -> (r: String)
    ensures
        r@ == duplicate_text(err_msg@),
{
    let chars = chars_of(err_msg);
    let low = lower_chars(chars.as_slice());
    let marker = chars_of("constraint failed: ");
    match last_at(low.as_slice(), marker.as_slice()) {
        None => err_msg.to_owned(),
        Some(at) => {
            assert(low@.len() == chars@.len() && chars.len() <= usize::MAX);
            let from: usize = at + marker.len();
            let rest = slice_subrange(chars.as_slice(), from, chars.len());
            assert(rest@ == err_msg@.skip(at + marker@.len()));
            let key = trimmed(rest);
            if key.len() == 0 {
                return err_msg.to_owned();
            }
            let mut r: String = "Duplicate entry '<unknown>' for key '".to_owned();
            let key_text = string_of(key);
            r.append(key_text.as_str());
            r.append("' (");
            r.append(err_msg);
            r.append(")");
            r
        },
    }
}

/// The MySQL error of a backend's message.
pub fn classify(err_msg: &str) -> (r: MappedError)
    ensures
        r.code == code_of(err_msg@),
        r.sqlstate@ == state_of(r.code),
        r.message@ == message_of(err_msg@),
{
    let general: [u8; 5] = [72, 89, 48, 48, 48];
    let no_table: [u8; 5] = [52, 50, 83, 48, 50];
    let constraint: [u8; 5] = [50, 51, 48, 48, 48];
    assert(general@ =~= general_state());
    assert(no_table@ =~= no_table_state());
    assert(constraint@ =~= constraint_state());
    let chars = chars_of(err_msg);
    let low = lower_chars(chars.as_slice());
    let l = low.as_slice();
    if contains(l, "database is locked") || contains(l, "database table is locked") || contains(
        l,
        "sqlite_busy",
    ) || contains(l, "sqlite_locked") {
        return MappedError {
            code: ER_LOCK_WAIT_TIMEOUT,
            sqlstate: general,
            message: err_msg.to_owned(),
        };
    }
    if contains(l, "no such table") {
        return MappedError {
            code: ER_NO_SUCH_TABLE,
            sqlstate: no_table,
            message: err_msg.to_owned(),
        };
    }
    if contains(l, "unique constraint failed") || contains(l, "primary key constraint failed") {
        return MappedError {
            code: ER_DUP_ENTRY,
            sqlstate: constraint,
            message: duplicate_entry_message(err_msg),
        };
    }
    if contains(l, "foreign key constraint failed") {
        return MappedError {
            code: ER_NO_REFERENCED_ROW_2,
            sqlstate: constraint,
            message: err_msg.to_owned(),
        };
    }
    if contains(l, "attempt to write a readonly database") || contains(l, "readonly database")
        || contains(l, "sqlite_readonly") {
        return MappedError {
            code: ER_OPTION_PREVENTS_STATEMENT,
            sqlstate: general,
            message: err_msg.to_owned(),
        };
    }
    MappedError { code: ER_UNKNOWN_ERROR, sqlstate: general, message: err_msg.to_owned() }
}

/// The backend's own words are always in the message, and they are the whole
/// message of everything but a duplicate key.
pub proof fn law_backend_text_survives(msg: Seq<char>)
    ensures
        crate::text::occurs(message_of(msg), msg),
        code_of(msg) != ER_DUP_ENTRY ==> message_of(msg) == msg,
{
    assert(msg.subrange(0, msg.len() as int) == msg);
    assert(crate::text::stands_at(msg, msg, 0));
    if code_of(msg) == ER_DUP_ENTRY {
        if let Some(key) = duplicate_key(msg) {
            let front = "Duplicate entry '<unknown>' for key '"@ + key + "' ("@;
            let all = front + msg + ")"@;
            assert(all == message_of(msg));
            assert(all.subrange(front.len() as int, (front.len() + msg.len()) as int) == msg);
            assert(crate::text::stands_at(all, msg, front.len() as int));
        }
    }
}

/// A message with a known cause is never reported as unknown, wherever in the
/// text the cause is named and in whatever case.
pub proof fn law_known_causes_are_found(msg: Seq<char>)
    ensures
        code_of(msg) == ER_UNKNOWN_ERROR <==> {
            &&& !says_locked(msg)
            &&& !says(msg, "no such table"@)
            &&& !says_duplicate(msg)
            &&& !says(msg, "foreign key constraint failed"@)
            &&& !says_readonly(msg)
        },
{
}

/// What stands in a part of a text stands in the text.
proof fn lemma_part_occurs(whole: Seq<char>, from: int, to: int, words: Seq<char>)
    requires
        0 <= from <= to <= whole.len(),
        says(whole.subrange(from, to), words),
    ensures
        says(whole, words),
{
    let part = crate::text::lower(whole.subrange(from, to));
    let at = choose|at: int| crate::text::stands_at(part, words, at);
    let low = crate::text::lower(whole);
    assert(low.subrange(from + at, from + at + words.len()) =~= part.subrange(
        at,
        at + words.len(),
    ));
    assert(crate::text::stands_at(low, words, from + at));
}

/// A trimmed text is a part of the text.
proof fn lemma_trim_is_part(s: Seq<char>) -> (r: (int, int))
    ensures
        0 <= r.0 <= r.1 <= s.len(),
        crate::text::trim(s) == s.subrange(r.0, r.1),
{
    let a = lemma_trim_start_is_part(s);
    let t = crate::text::trim_start(s);
    let b = lemma_trim_end_is_part(t);
    assert(t.subrange(0, b) =~= s.subrange(a, a + b));
    (a, a + b)
}

proof fn lemma_trim_start_is_part(s: Seq<char>) -> (r: int)
    ensures
        0 <= r <= s.len(),
        crate::text::trim_start(s) == s.subrange(r, s.len() as int),
    decreases s.len(),
{
    if s.len() > 0 && crate::text::is_space(s[0]) {
        let r = lemma_trim_start_is_part(s.skip(1));
        assert(s.skip(1).subrange(r, s.len() - 1) =~= s.subrange(r + 1, s.len() as int));
        r + 1
    } else {
        assert(s.subrange(0, s.len() as int) =~= s);
        0
    }
}

proof fn lemma_trim_end_is_part(s: Seq<char>) -> (r: int)
    ensures
        0 <= r <= s.len(),
        crate::text::trim_end(s) == s.subrange(0, r),
    decreases s.len(),
{
    if s.len() > 0 && crate::text::is_space(s.last()) {
        let r = lemma_trim_end_is_part(s.drop_last());
        assert(s.drop_last().subrange(0, r) =~= s.subrange(0, r));
        r
    } else {
        assert(s.subrange(0, s.len() as int) =~= s);
        s.len() as int
    }
}

/// The fixed beginning of a duplicate's message.
spec fn beginning() -> Seq<char> {
    "Duplicate entry '<unknown>' for key '"@
}

/// Words that are longer than a few letters, have no quote and no parenthesis
/// in them, and do not begin as a short stretch of the beginning does.
spec fn stands_alone(words: Seq<char>) -> bool {
    &&& words.len() > 10
    &&& forall|i: int|
        0 <= i < words.len() ==> {
            &&& #[trigger] words[i] != '\''
            &&& words[i] != '('
            &&& words[i] != ')'
        }
    &&& words.len() <= 16 ==> words[0] == 's' || words[0] == 'n'
}

proof fn lemma_known_words_stand_alone()
    ensures
        stands_alone("database is locked"@),
        stands_alone("database table is locked"@),
        stands_alone("sqlite_busy"@),
        stands_alone("sqlite_locked"@),
        stands_alone("no such table"@),
{
    reveal_strlit("database is locked");
    reveal_strlit("database table is locked");
    reveal_strlit("sqlite_busy");
    reveal_strlit("sqlite_locked");
    reveal_strlit("no such table");
}

/// The words of another cause that the message of a duplicate says, the
/// backend's message said.
proof fn lemma_no_new_words(msg: Seq<char>, from: int, to: int, words: Seq<char>)
    requires
        0 <= from <= to <= msg.len(),
        stands_alone(words),
        says(beginning() + msg.subrange(from, to) + "' ("@ + msg + ")"@, words),
    ensures
        says(msg, words),
{
    reveal_strlit("Duplicate entry '<unknown>' for key '");
    reveal_strlit("' (");
    reveal_strlit(")");
    let key = msg.subrange(from, to);
    let all = beginning() + key + "' ("@ + msg + ")"@;
    let low = crate::text::lower(all);
    let at = choose|at: int| crate::text::stands_at(low, words, at);
    let n = words.len() as int;
    let k = key.len() as int;
    let quoted = low.subrange(at, at + n);
    assert forall|i: int| at <= i < at + n implies #[trigger] low[i] == words[i - at] by {
        assert(quoted[i - at] == words[i - at]);
    }
    assert(all[16] == '\'');
    assert(all[26] == '\'');
    assert(all[36] == '\'');
    assert(low[16] == '\'');
    assert(low[26] == '\'');
    assert(low[36] == '\'');
    assert(all[37 + k] == '\'');
    assert(all[37 + k + 2] == '(');
    assert(all[all.len() - 1] == ')');
    assert(low[37 + k] == '\'');
    assert(low[37 + k + 2] == '(');
    assert(low[all.len() - 1] == ')');
    if at < 37 {
        if at <= 16 {
            assert(at + n <= 16);
            assert(at <= 5);
            assert(all[0] == 'D' && all[1] == 'u' && all[2] == 'p' && all[3] == 'l' && all[4]
                == 'i' && all[5] == 'c');
            assert(low[at] == words[0]);
        } else if at <= 26 {
            assert(at + n <= 26);
        } else {
            assert(at + n <= 36);
        }
        assert(false);
    } else if at <= 37 + k {
        assert(at + n <= 37 + k);
        let low_msg = crate::text::lower(msg);
        let here = from + at - 37;
        assert(low_msg.subrange(here, here + n) =~= quoted) by {
            assert forall|j: int| 0 <= j < n implies #[trigger] quoted[j] == low_msg[here + j] by {
                assert(all[at + j] == key[at + j - 37]);
            }
        }
        assert(crate::text::stands_at(low_msg, words, here));
    } else if at <= 37 + k + 2 {
        assert(false);
    } else {
        assert(at + n < all.len());
        let low_msg = crate::text::lower(msg);
        let here = at - 37 - k - 3;
        assert(low_msg.subrange(here, here + n) =~= quoted) by {
            assert forall|j: int| 0 <= j < n implies #[trigger] quoted[j] == low_msg[here + j] by {
                assert(all[at + j] == msg[here + j]);
            }
        }
        assert(crate::text::stands_at(low_msg, words, here));
    }
}

proof fn lemma_find_last(hay: Seq<char>, needle: Seq<char>, from: int)
    ensures
        crate::text::find_last_from(hay, needle, from) matches Some(at)
            ==> crate::text::stands_at(hay, needle, at),
    decreases from + 1,
{
    if from >= 0 && !crate::text::stands_at(hay, needle, from) {
        lemma_find_last(hay, needle, from - 1);
    }
}

/// Classifying a message again gives the same code: what is added to the
/// message of a duplicate key names no other cause.
pub proof fn law_classifying_again_keeps_the_code(msg: Seq<char>)
    ensures
        code_of(message_of(msg)) == code_of(msg),
{
    if code_of(msg) == ER_DUP_ENTRY {
        let low = crate::text::lower(msg);
        lemma_find_last(low, "constraint failed: "@, low.len() as int);
        if let Some(key) = duplicate_key(msg) {
            let at = crate::text::find_last(low, "constraint failed: "@).unwrap();
            let skipped = at + "constraint failed: "@.len();
            let rest = msg.skip(skipped);
            let (a, b) = lemma_trim_is_part(rest);
            assert(key =~= msg.subrange(skipped + a, skipped + b));
            let all = message_of(msg);
            assert(all == beginning() + key + "' ("@ + msg + ")"@);
            lemma_known_words_stand_alone();
            if says(all, "database is locked"@) {
                lemma_no_new_words(msg, skipped + a, skipped + b, "database is locked"@);
            }
            if says(all, "database table is locked"@) {
                lemma_no_new_words(msg, skipped + a, skipped + b, "database table is locked"@);
            }
            if says(all, "sqlite_busy"@) {
                lemma_no_new_words(msg, skipped + a, skipped + b, "sqlite_busy"@);
            }
            if says(all, "sqlite_locked"@) {
                lemma_no_new_words(msg, skipped + a, skipped + b, "sqlite_locked"@);
            }
            if says(all, "no such table"@) {
                lemma_no_new_words(msg, skipped + a, skipped + b, "no such table"@);
            }
            let front = (beginning() + key + "' ("@).len() as int;
            assert(all.subrange(front, front + msg.len()) =~= msg);
            if says(msg, "unique constraint failed"@) {
                lemma_part_occurs(all, front, front + msg.len(), "unique constraint failed"@);
            } else {
                lemma_part_occurs(all, front, front + msg.len(), "primary key constraint failed"@);
            }
        }
    }
}

/// The code goes by what the message says, in whatever case and wherever it
/// says it: of several causes the first of these counts, and a message that
/// says none of them has the code for an unknown error.
pub proof fn law_code_follows_the_words(err_msg: &str, r: MappedError)
    requires
        call_ensures(classify, (err_msg,), r),
    ensures
        ({
            let m = err_msg@;
            let locked = crate::text_laws::says_words(m, "database is locked"@)
                || crate::text_laws::says_words(m, "database table is locked"@)
                || crate::text_laws::says_words(m, "sqlite_busy"@)
                || crate::text_laws::says_words(m, "sqlite_locked"@);
            let no_table = crate::text_laws::says_words(m, "no such table"@);
            let duplicate = crate::text_laws::says_words(m, "unique constraint failed"@)
                || crate::text_laws::says_words(m, "primary key constraint failed"@);
            let foreign = crate::text_laws::says_words(m, "foreign key constraint failed"@);
            let read_only = crate::text_laws::says_words(m, "attempt to write a readonly database"@)
                || crate::text_laws::says_words(m, "readonly database"@)
                || crate::text_laws::says_words(m, "sqlite_readonly"@);
            &&& r.code == 1205 <==> locked
            &&& r.code == 1146 <==> no_table && !locked
            &&& r.code == 1062 <==> duplicate && !locked && !no_table
            &&& r.code == 1452 <==> foreign && !locked && !no_table && !duplicate
            &&& r.code == 1290 <==> read_only && !locked && !no_table && !duplicate && !foreign
            &&& r.code == 1105 <==> !locked && !no_table && !duplicate && !foreign && !read_only
        }),
{
    crate::text_laws::lemma_occurs_lower(err_msg@, "database is locked"@);
    crate::text_laws::lemma_occurs_lower(err_msg@, "database table is locked"@);
    crate::text_laws::lemma_occurs_lower(err_msg@, "sqlite_busy"@);
    crate::text_laws::lemma_occurs_lower(err_msg@, "sqlite_locked"@);
    crate::text_laws::lemma_occurs_lower(err_msg@, "no such table"@);
    crate::text_laws::lemma_occurs_lower(err_msg@, "unique constraint failed"@);
    crate::text_laws::lemma_occurs_lower(err_msg@, "primary key constraint failed"@);
    crate::text_laws::lemma_occurs_lower(err_msg@, "foreign key constraint failed"@);
    crate::text_laws::lemma_occurs_lower(err_msg@, "attempt to write a readonly database"@);
    crate::text_laws::lemma_occurs_lower(err_msg@, "readonly database"@);
    crate::text_laws::lemma_occurs_lower(err_msg@, "sqlite_readonly"@);
}

/// The SQLSTATE goes with the code: `42S02` for a table that is missing,
/// `23000` for a constraint, and `HY000` for anything else.
pub proof fn law_state_follows_the_code(err_msg: &str, r: MappedError, i: int)
    requires
        call_ensures(classify, (err_msg,), r),
        0 <= i < 5,
    ensures
        r.sqlstate@[i] as int == (if r.code == 1146 {
            "42S02"@
        } else if r.code == 1062 || r.code == 1452 {
            "23000"@
        } else {
            "HY000"@
        })[i] as int,
{
    reveal_strlit("42S02");
    reveal_strlit("23000");
    reveal_strlit("HY000");
}

proof fn lemma_last_found(hay: Seq<char>, needle: Seq<char>, at: int, from: int)
    requires
        crate::text::stands_at(hay, needle, at),
        at <= from,
        forall|k: int| at < k <= from ==> !#[trigger] crate::text::stands_at(hay, needle, k),
    ensures
        crate::text::find_last_from(hay, needle, from) == Some(at),
    decreases from - at,
{
    if at < from {
        lemma_last_found(hay, needle, at, from - 1);
    }
}

/// A duplicate names its key: what follows the last `constraint failed: ` in
/// the message, without white space around it, stands between the quotes, and
/// the message itself between the brackets.
pub proof fn law_duplicate_names_its_key(
    err_msg: &str,
    r: String,
    before: Seq<char>,
    marker: Seq<char>,
    space: Seq<char>,
    key: Seq<char>,
    trailing: Seq<char>,
)
    requires
        call_ensures(duplicate_entry_message, (err_msg,), r),
        crate::text::lower(marker) == "constraint failed: "@,
        err_msg@ == before + marker + (space + key + trailing),
        !crate::text_laws::says_words(space + key + trailing, "constraint failed: "@),
        forall|i: int| 0 <= i < space.len() ==> crate::text::is_space(#[trigger] space[i]),
        forall|i: int| 0 <= i < trailing.len() ==> crate::text::is_space(#[trigger] trailing[i]),
        key.len() > 0,
        !crate::text::is_space(key[0]),
        !crate::text::is_space(key.last()),
    ensures
        r@ == "Duplicate entry '<unknown>' for key '"@ + key + "' ("@ + err_msg@ + ")"@,
{
    reveal_strlit("constraint failed: ");
    let words = "constraint failed: "@;
    let n = words.len() as int;
    let msg = err_msg@;
    let low = crate::text::lower(msg);
    let rest = space + key + trailing;
    let at = before.len() as int;
    assert(marker.len() == n);
    assert(low.subrange(at, at + n) =~= words) by {
        assert forall|i: int| 0 <= i < n implies low[at + i] == #[trigger] words[i] by {
            assert(msg[at + i] == marker[i]);
            assert(crate::text::lower(marker)[i] == words[i]);
        }
    }
    assert(crate::text::stands_at(low, words, at));
    assert forall|k: int| at < k <= low.len() implies !#[trigger] crate::text::stands_at(
        low,
        words,
        k,
    ) by {
        if crate::text::stands_at(low, words, k) {
            assert(low.subrange(k, k + n)[0] == words[0]);
            assert(low[k] == words[0]);
            if k < at + n {
                assert(low[k] == low.subrange(at, at + n)[k - at]);
                assert(words[k - at] != words[0]);
            } else {
                let here = k - at - n;
                assert(rest.subrange(here, here + n) =~= msg.subrange(k, k + n));
                assert(crate::text::lower(rest.subrange(here, here + n)) =~= low.subrange(
                    k,
                    k + n,
                ));
            }
        }
    }
    lemma_last_found(low, words, at, low.len() as int);
    assert(msg.skip(at + n) =~= rest);
    crate::text_laws::law_trim_takes_the_space(space, key, trailing);
}

/// A message that does not say `constraint failed: ` names no key, and is
/// left as it is.
pub proof fn law_keyless_duplicate_is_left(err_msg: &str, r: String)
    requires
        call_ensures(duplicate_entry_message, (err_msg,), r),
        !crate::text_laws::says_words(err_msg@, "constraint failed: "@),
    ensures
        r@ == err_msg@,
{
    let low = crate::text::lower(err_msg@);
    crate::text_laws::lemma_occurs_lower(err_msg@, "constraint failed: "@);
    lemma_find_last(low, "constraint failed: "@, low.len() as int);
}

} // verus!
