//! Which statements the screen refuses, told by the words that they begin
//! with.
use crate::backend::tenant_screen;
use crate::backend::tenant_screen::{check_statement, screen_sql, Passed, ScreenedConn};
use crate::backend::{BackendError, Value};
use vstd::prelude::*;

verus! {

/// All of it is white space.
pub open spec fn is_blank(s: Seq<char>) -> bool {
    forall|i: int| 0 <= i < s.len() ==> crate::text::is_space(#[trigger] s[i])
}

/// A letter of the ASCII alphabet.
pub open spec fn is_ascii_letter(c: char) -> bool {
    'A' <= c <= 'Z' || 'a' <= c <= 'z'
}

/// Nothing but letters, and at least one.
pub open spec fn is_letters(w: Seq<char>) -> bool {
    &&& w.len() > 0
    &&& forall|i: int| 0 <= i < w.len() ==> is_ascii_letter(#[trigger] w[i])
}

/// A word ends before the text.
pub open spec fn ends_word(rest: Seq<char>) -> bool {
    rest.len() > 0 ==> !is_ascii_letter(rest[0])
}

/// A letter, a digit, an underscore or a dollar sign.
pub open spec fn is_name_char(c: char) -> bool {
    is_ascii_letter(c) || '0' <= c <= '9' || c == '_' || c == '$'
}

/// A name that needs no quotes.
pub open spec fn is_bare_name(s: Seq<char>) -> bool {
    &&& s.len() > 0
    &&& forall|i: int| 0 <= i < s.len() ==> is_name_char(#[trigger] s[i])
}

/// A name ends before the text.
pub open spec fn ends_name(rest: Seq<char>) -> bool {
    rest.len() > 0 ==> !is_name_char(rest[0])
}

proof fn lemma_letters(s: Seq<char>, i: int, j: int)
    requires
        0 <= i <= j <= s.len(),
        forall|k: int| i <= k < j ==> is_ascii_letter(#[trigger] s[k]),
        j < s.len() ==> !is_ascii_letter(s[j]),
    ensures
        tenant_screen::letters_end(s, i) == j,
    decreases j - i,
{
    if i < j {
        lemma_letters(s, i + 1, j);
    }
}

proof fn lemma_names(s: Seq<char>, i: int, j: int)
    requires
        0 <= i <= j <= s.len(),
        forall|k: int| i <= k < j ==> is_name_char(#[trigger] s[k]),
        j < s.len() ==> !is_name_char(s[j]),
    ensures
        tenant_screen::identifier_end(s, i) == j,
    decreases j - i,
{
    if i < j {
        lemma_names(s, i + 1, j);
    }
}

/// The keyword of a text that begins with a word is that word in capitals.
proof fn lemma_keyword(word: Seq<char>, rest: Seq<char>)
    requires
        is_letters(word),
        ends_word(rest),
    ensures
        tenant_screen::keyword(word + rest) == crate::text::upper(word),
        tenant_screen::after_keyword(word + rest) == rest,
{
    let s = word + rest;
    let n = word.len() as int;
    assert forall|k: int| 0 <= k < n implies is_ascii_letter(#[trigger] s[k]) by {
        assert(s[k] == word[k]);
    }
    if n < s.len() {
        assert(s[n] == rest[0]);
    }
    lemma_letters(s, 0, n);
    assert(s.take(n) =~= word);
    assert(s.skip(n) =~= rest);
}

/// Begins with neither white space nor a comment.
pub open spec fn is_bare(s: Seq<char>) -> bool {
    &&& s.len() > 0
    &&& !crate::text::is_space(s[0])
    &&& !(s.len() >= 2 && s[0] == '-' && s[1] == '-')
    &&& !(s.len() >= 2 && s[0] == '/' && s[1] == '*')
}

proof fn lemma_trim(space: Seq<char>, s: Seq<char>)
    requires
        is_blank(space),
        s.len() > 0 ==> !crate::text::is_space(s[0]),
    ensures
        crate::text::trim_start(space + s) == s,
    decreases space.len(),
{
    let all = space + s;
    if space.len() == 0 {
        assert(all =~= s);
    } else {
        assert(all[0] == space[0]);
        assert(all.skip(1) =~= space.skip(1) + s);
        assert forall|i: int| 0 <= i < space.skip(1).len() implies crate::text::is_space(
            #[trigger] space.skip(1)[i],
        ) by {
            assert(space.skip(1)[i] == space[i + 1]);
        }
        lemma_trim(space.skip(1), s);
    }
}

proof fn lemma_strip(space: Seq<char>, s: Seq<char>)
    requires
        is_blank(space),
        s.len() == 0 || is_bare(s),
    ensures
        tenant_screen::strip_noise(space + s) == s,
{
    lemma_trim(space, s);
}

proof fn lemma_word_is_bare(word: Seq<char>, rest: Seq<char>)
    requires
        is_letters(word),
    ensures
        is_bare(word + rest),
{
    assert((word + rest)[0] == word[0]);
}

/// `ATTACH` and `DETACH` are refused by name, in whatever case, behind
/// whatever white space and whatever follows them.
pub proof fn law_attach_is_refused(
    stmt: &[char],
    r: Result<(), String>,
    space: Seq<char>,
    word: Seq<char>,
    rest: Seq<char>,
)
    requires
        call_ensures(check_statement, (stmt,), r),
        stmt@ == space + (word + rest),
        is_blank(space),
        is_letters(word),
        ends_word(rest),
        crate::text::upper(word) == "ATTACH"@ || crate::text::upper(word) == "DETACH"@,
    ensures
        r matches Err(e) && e@ == crate::text::upper(word),
{
    lemma_word_is_bare(word, rest);
    lemma_strip(space, word + rest);
    lemma_keyword(word, rest);
    reveal_strlit("ATTACH");
    reveal_strlit("DETACH");
    reveal_strlit("EXPLAIN");
    assert("EXPLAIN"@.len() == 7 && "ATTACH"@.len() == 6 && "DETACH"@.len() == 6);
}

/// A `VACUUM` by itself passes; one that anything follows is refused, since
/// it may name another file.
pub proof fn law_vacuum_into_is_refused(
    stmt: &[char],
    r: Result<(), String>,
    space: Seq<char>,
    word: Seq<char>,
    gap: Seq<char>,
    rest: Seq<char>,
)
    requires
        call_ensures(check_statement, (stmt,), r),
        stmt@ == space + (word + (gap + rest)),
        is_blank(space),
        is_letters(word),
        ends_word(gap + rest),
        crate::text::upper(word) == "VACUUM"@,
        is_blank(gap),
        rest.len() == 0 || is_bare(rest),
    ensures
        rest.len() == 0 ==> r is Ok,
        rest.len() > 0 ==> (r matches Err(e) && e@ == "VACUUM INTO"@),
{
    lemma_word_is_bare(word, gap + rest);
    lemma_strip(space, word + (gap + rest));
    lemma_keyword(word, gap + rest);
    lemma_strip(gap, rest);
    reveal_strlit("VACUUM");
    reveal_strlit("ATTACH");
    reveal_strlit("DETACH");
    reveal_strlit("PRAGMA");
    reveal_strlit("EXPLAIN");
    assert("EXPLAIN"@.len() == 7 && "VACUUM"@.len() == 6);
    assert("VACUUM"@[0] == 'V' && "ATTACH"@[0] == 'A' && "DETACH"@[0] == 'D' && "PRAGMA"@[0] == 'P');
}

/// The settings that a session must not reach.
pub open spec fn is_forbidden_setting(name: Seq<char>) -> bool {
    let n = crate::text::lower(name);
    n == "writable_schema"@ || n == "temp_store_directory"@ || n == "data_store_directory"@
}

proof fn lemma_identifier(name: Seq<char>, tail: Seq<char>)
    requires
        is_bare_name(name),
        ends_name(tail),
    ensures
        tenant_screen::identifier(name + tail) == Some((name, tail)),
        is_bare(name + tail),
{
    let s = name + tail;
    let n = name.len() as int;
    assert(s[0] == name[0]);
    assert forall|k: int| 0 <= k < n implies is_name_char(#[trigger] s[k]) by {
        assert(s[k] == name[k]);
    }
    if n < s.len() {
        assert(s[n] == tail[0]);
    }
    lemma_names(s, 0, n);
    assert(s.take(n) =~= name);
    assert(s.skip(n) =~= tail);
}

proof fn lemma_pragma(space: Seq<char>, word: Seq<char>, target: Seq<char>)
    requires
        is_blank(space),
        is_letters(word),
        ends_word(target),
        crate::text::upper(word) == "PRAGMA"@,
    ensures
        tenant_screen::objection(space + (word + target)) == match tenant_screen::first_forbidden(
            tenant_screen::name_parts(tenant_screen::strip_noise(target)),
        ) {
            Some(name) => Some("PRAGMA "@ + name),
            None => None,
        },
{
    lemma_word_is_bare(word, target);
    lemma_strip(space, word + target);
    lemma_keyword(word, target);
    reveal_strlit("VACUUM");
    reveal_strlit("ATTACH");
    reveal_strlit("DETACH");
    reveal_strlit("PRAGMA");
    reveal_strlit("EXPLAIN");
    assert("EXPLAIN"@.len() == 7 && "PRAGMA"@.len() == 6);
    assert("VACUUM"@[0] == 'V' && "ATTACH"@[0] == 'A' && "DETACH"@[0] == 'D' && "PRAGMA"@[0] == 'P');
}

/// A `PRAGMA` of one of the three settings that name a path or open the
/// schema for edits is refused, whatever follows the name; a `PRAGMA` of any
/// other setting that no dot follows passes.
pub proof fn law_pragma_by_name(
    stmt: &[char],
    r: Result<(), String>,
    space: Seq<char>,
    word: Seq<char>,
    gap: Seq<char>,
    name: Seq<char>,
    tail: Seq<char>,
)
    requires
        call_ensures(check_statement, (stmt,), r),
        stmt@ == space + (word + (gap + (name + tail))),
        is_blank(space),
        is_letters(word),
        crate::text::upper(word) == "PRAGMA"@,
        gap.len() > 0,
        is_blank(gap),
        is_bare_name(name),
        ends_name(tail),
    ensures
        is_forbidden_setting(name) ==> (r matches Err(e) && e@ == "PRAGMA "@ + crate::text::lower(
            name,
        )),
        !is_forbidden_setting(name) && (tail.len() == 0 || is_bare(tail) && tail[0] != '.')
            ==> r is Ok,
{
    let target = gap + (name + tail);
    assert(target[0] == gap[0]);
    lemma_pragma(space, word, target);
    lemma_identifier(name, tail);
    lemma_strip(gap, name + tail);
    let parts = tenant_screen::name_parts(name + tail);
    assert(parts[0] == crate::text::lower(name));
    if tail.len() == 0 || is_bare(tail) && tail[0] != '.' {
        lemma_strip(Seq::empty(), tail);
        assert(Seq::<char>::empty() + tail =~= tail);
        assert(parts =~= seq![crate::text::lower(name)]);
        assert(parts.skip(1) =~= Seq::<Seq<char>>::empty());
        assert(tenant_screen::first_forbidden(parts.skip(1)) is None);
    }
}

/// The name of a schema in front does not hide the setting.
pub proof fn law_pragma_behind_a_schema(
    stmt: &[char],
    r: Result<(), String>,
    space: Seq<char>,
    word: Seq<char>,
    gap: Seq<char>,
    schema: Seq<char>,
    name: Seq<char>,
    tail: Seq<char>,
)
    requires
        call_ensures(check_statement, (stmt,), r),
        stmt@ == space + (word + (gap + (schema + (seq!['.'] + (name + tail))))),
        is_blank(space),
        is_letters(word),
        crate::text::upper(word) == "PRAGMA"@,
        gap.len() > 0,
        is_blank(gap),
        is_bare_name(schema),
        is_bare_name(name),
        ends_name(tail),
        is_forbidden_setting(name),
    ensures
        r is Err,
{
    let dotted = seq!['.'] + (name + tail);
    let target = gap + (schema + dotted);
    assert(target[0] == gap[0]);
    assert(dotted[0] == '.');
    lemma_pragma(space, word, target);
    lemma_identifier(schema, dotted);
    lemma_strip(gap, schema + dotted);
    lemma_strip(Seq::empty(), dotted);
    assert(Seq::<char>::empty() + dotted =~= dotted);
    assert(dotted.skip(1) =~= name + tail);
    lemma_identifier(name, tail);
    lemma_strip(Seq::empty(), name + tail);
    assert(Seq::<char>::empty() + (name + tail) =~= name + tail);
    let inner = tenant_screen::name_parts(name + tail);
    let parts = tenant_screen::name_parts(schema + dotted);
    assert(inner[0] == crate::text::lower(name));
    assert(parts =~= seq![crate::text::lower(schema)] + inner);
    assert(parts[0] == crate::text::lower(schema));
    assert(parts.skip(1) =~= inner);
    assert(tenant_screen::first_forbidden(inner) is Some);
}

/// Quotes do not hide the setting: not double quotes, backticks, single
/// quotes or brackets.
pub proof fn law_pragma_in_quotes(
    stmt: &[char],
    r: Result<(), String>,
    space: Seq<char>,
    word: Seq<char>,
    gap: Seq<char>,
    open: char,
    name: Seq<char>,
    close: char,
    tail: Seq<char>,
)
    requires
        call_ensures(check_statement, (stmt,), r),
        stmt@ == space + (word + (gap + (seq![open] + name + seq![close] + tail))),
        is_blank(space),
        is_letters(word),
        crate::text::upper(word) == "PRAGMA"@,
        is_blank(gap),
        open == '"' && close == '"' || open == '`' && close == '`' || open == '\'' && close == '\''
            || open == '[' && close == ']',
        is_bare_name(name),
        tail.len() > 0 ==> tail[0] != close,
        is_forbidden_setting(name),
    ensures
        r is Err,
{
    let quoted = seq![open] + name + seq![close] + tail;
    let target = gap + quoted;
    assert(quoted[0] == open);
    if gap.len() > 0 {
        assert(target[0] == gap[0]);
    } else {
        assert(target[0] == open);
    }
    lemma_pragma(space, word, target);
    lemma_strip(gap, quoted);
    let n = name.len() as int;
    assert(quoted[n + 1] == close);
    if n + 2 < quoted.len() {
        assert(quoted[n + 2] == tail[0]);
    }
    assert forall|k: int| 1 <= k < n + 1 implies #[trigger] quoted[k] != close by {
        assert(quoted[k] == name[k - 1]);
    }
    lemma_closed(quoted, 1, n + 1, close);
    assert(quoted.subrange(1, n + 1) =~= name);
    lemma_undoubled(name, close);
    let parts = tenant_screen::name_parts(quoted);
    assert(parts[0] == crate::text::lower(name));
}

proof fn lemma_closed(s: Seq<char>, i: int, j: int, close: char)
    requires
        0 <= i <= j < s.len(),
        forall|k: int| i <= k < j ==> #[trigger] s[k] != close,
        s[j] == close,
        j + 1 < s.len() ==> s[j + 1] != close,
    ensures
        tenant_screen::closed_at(s, i, close) == Some(j),
    decreases j - i,
{
    if i < j {
        lemma_closed(s, i + 1, j, close);
    }
}

proof fn lemma_undoubled(s: Seq<char>, quote: char)
    requires
        forall|i: int| 0 <= i < s.len() ==> is_name_char(#[trigger] s[i]),
        !is_name_char(quote),
    ensures
        tenant_screen::undoubled(s, quote) == s,
    decreases s.len(),
{
    if s.len() > 0 {
        let rest = s.skip(1);
        assert forall|i: int| 0 <= i < rest.len() implies is_name_char(#[trigger] rest[i]) by {
            assert(rest[i] == s[i + 1]);
        }
        lemma_undoubled(rest, quote);
        assert(seq![s[0]] + rest =~= s);
    }
}

/// A statement that begins with any other word passes, whatever follows it.
pub proof fn law_other_words_pass(
    stmt: &[char],
    r: Result<(), String>,
    space: Seq<char>,
    word: Seq<char>,
    rest: Seq<char>,
)
    requires
        call_ensures(check_statement, (stmt,), r),
        stmt@ == space + (word + rest),
        is_blank(space),
        is_letters(word),
        ends_word(rest),
        crate::text::upper(word) != "ATTACH"@,
        crate::text::upper(word) != "DETACH"@,
        crate::text::upper(word) != "VACUUM"@,
        crate::text::upper(word) != "PRAGMA"@,
        crate::text::upper(word) != "EXPLAIN"@,
    ensures
        r is Ok,
{
    lemma_word_is_bare(word, rest);
    lemma_strip(space, word + rest);
    lemma_keyword(word, rest);
}

/// White space and comments in front hide nothing: a statement is refused
/// with them exactly where it is without them, and with the same words.
pub proof fn law_noise_hides_nothing(
    stmt: &[char],
    noisy: &[char],
    r: Result<(), String>,
    q: Result<(), String>,
    body: Seq<char>,
)
    requires
        call_ensures(check_statement, (stmt,), r),
        call_ensures(check_statement, (noisy,), q),
        ({
            ||| is_blank(body) && noisy@ == body + stmt@
            ||| !body.contains('\n') && noisy@ == seq!['-', '-'] + body + seq!['\n'] + stmt@
            ||| !crate::text::occurs(body + seq!['*'], seq!['*', '/']) && noisy@ == seq!['/', '*']
                + body + seq!['*', '/'] + stmt@
        }),
    ensures
        r is Ok <==> q is Ok,
        r is Err && q is Err ==> r->Err_0@ == q->Err_0@,
{
    if is_blank(body) && noisy@ == body + stmt@ {
        lemma_blank_front(body, stmt@);
    } else if !body.contains('\n') && noisy@ == seq!['-', '-'] + body + seq!['\n'] + stmt@ {
        lemma_comment_front(seq!['-', '-'], body, seq!['\n'], stmt@);
    } else {
        lemma_comment_front(seq!['/', '*'], body, seq!['*', '/'], stmt@);
    }
}

proof fn lemma_blank_front(space: Seq<char>, s: Seq<char>)
    requires
        is_blank(space),
    ensures
        tenant_screen::strip_noise(space + s) == tenant_screen::strip_noise(s),
    decreases space.len(),
{
    let all = space + s;
    if space.len() == 0 {
        assert(all =~= s);
    } else {
        assert(all[0] == space[0]);
        assert(all.skip(1) =~= space.skip(1) + s);
        assert forall|i: int| 0 <= i < space.skip(1).len() implies crate::text::is_space(
            #[trigger] space.skip(1)[i],
        ) by {
            assert(space.skip(1)[i] == space[i + 1]);
        }
        lemma_blank_front(space.skip(1), s);
        assert(crate::text::trim_start(all) == crate::text::trim_start(all.skip(1)));
    }
}

proof fn lemma_comment_front(open: Seq<char>, body: Seq<char>, close: Seq<char>, s: Seq<char>)
    requires
        ({
            ||| open == seq!['-', '-'] && close == seq!['\n'] && !body.contains('\n')
            ||| open == seq!['/', '*'] && close == seq!['*', '/'] && !crate::text::occurs(
                body + seq!['*'],
                close,
            )
        }),
    ensures
        tenant_screen::strip_noise(open + body + close + s) == tenant_screen::strip_noise(s),
{
    let all = open + body + close + s;
    assert(all[0] == open[0] && all[1] == open[1]);
    assert(!crate::text::is_space(all[0]));
    assert(crate::text::trim_start(all) == all);
    let inner = all.skip(2);
    assert(inner =~= body + close + s);
    let n = body.len() as int;
    assert(inner.subrange(n, n + close.len()) =~= close);
    assert(crate::text::stands_at(inner, close, n));
    assert forall|k: int| 0 <= k < n implies !#[trigger] crate::text::stands_at(inner, close, k) by {
        if crate::text::stands_at(inner, close, k) {
            let found = inner.subrange(k, k + close.len());
            assert(found[0] == inner[k]);
            assert(inner[k] == body[k]);
            if close.len() == 1 {
                assert(body[k] == '\n');
            } else {
                assert(found[1] == inner[k + 1]);
                let part = body + seq!['*'];
                assert(part.subrange(k, k + 2) =~= close) by {
                    assert(part[k] == inner[k]);
                    if k + 1 < n {
                        assert(part[k + 1] == inner[k + 1]);
                    } else {
                        assert(inner[k + 1] == close[0]);
                    }
                }
                assert(crate::text::stands_at(part, close, k));
            }
        }
    }
    lemma_found(inner, close, 0, n);
    assert(inner.skip(n + close.len()) =~= s);
}

proof fn lemma_found(hay: Seq<char>, needle: Seq<char>, from: int, at: int)
    requires
        0 <= from <= at,
        crate::text::stands_at(hay, needle, at),
        forall|k: int| from <= k < at ==> !#[trigger] crate::text::stands_at(hay, needle, k),
    ensures
        crate::text::find_from(hay, needle, from) == Some(at),
    decreases at - from,
{
    if from < at {
        lemma_found(hay, needle, from + 1, at);
    }
}

/// An `EXPLAIN` in front hides nothing: a statement is refused behind it
/// exactly where it is refused alone, and with the same words.
pub proof fn law_explain_hides_nothing(
    stmt: &[char],
    explained: &[char],
    r: Result<(), String>,
    q: Result<(), String>,
    space: Seq<char>,
    word: Seq<char>,
    gap: Seq<char>,
    verb: Seq<char>,
    rest: Seq<char>,
)
    requires
        call_ensures(check_statement, (stmt,), r),
        call_ensures(check_statement, (explained,), q),
        stmt@ == verb + rest,
        explained@ == space + (word + (gap + stmt@)),
        is_blank(space),
        is_letters(word),
        crate::text::upper(word) == "EXPLAIN"@,
        gap.len() > 0,
        is_blank(gap),
        is_letters(verb),
        ends_word(rest),
        crate::text::upper(verb) != "QUERY"@,
    ensures
        r is Ok <==> q is Ok,
        r is Err && q is Err ==> r->Err_0@ == q->Err_0@,
{
    assert((gap + stmt@)[0] == gap[0]);
    lemma_word_is_bare(word, gap + stmt@);
    lemma_strip(space, word + (gap + stmt@));
    lemma_keyword(word, gap + stmt@);
    lemma_word_is_bare(verb, rest);
    lemma_strip(gap, stmt@);
    lemma_strip(Seq::empty(), stmt@);
    assert(Seq::<char>::empty() + stmt@ =~= stmt@);
    lemma_keyword(verb, rest);
}

/// `EXPLAIN QUERY PLAN` hides nothing either, and `EXPLAIN QUERY` with
/// anything else behind it is refused.
pub proof fn law_query_plan_hides_nothing(
    stmt: &[char],
    explained: &[char],
    r: Result<(), String>,
    q: Result<(), String>,
    words: (Seq<char>, Seq<char>, Seq<char>),
    gaps: (Seq<char>, Seq<char>, Seq<char>),
    after: Seq<char>,
)
    requires
        call_ensures(check_statement, (stmt,), r),
        call_ensures(check_statement, (explained,), q),
        is_letters(words.0),
        is_letters(words.1),
        is_letters(words.2),
        gaps.0.len() > 0,
        gaps.1.len() > 0,
        is_blank(gaps.0),
        is_blank(gaps.1),
        is_blank(gaps.2),
        crate::text::upper(words.0) == "EXPLAIN"@,
        crate::text::upper(words.1) == "QUERY"@,
        ends_word(after),
        explained@ == words.0 + (gaps.0 + (words.1 + (gaps.1 + (words.2 + after)))),
        after == gaps.2 + stmt@,
    ensures
        crate::text::upper(words.2) != "PLAN"@ ==> q is Err,
        crate::text::upper(words.2) == "PLAN"@ ==> {
            &&& r is Ok <==> q is Ok
            &&& r is Err && q is Err ==> r->Err_0@ == q->Err_0@
        },
{
    let third = words.2 + after;
    let second = words.1 + (gaps.1 + third);
    assert((gaps.1 + third)[0] == gaps.1[0]);
    assert((gaps.0 + second)[0] == gaps.0[0]);
    lemma_word_is_bare(words.2, after);
    lemma_word_is_bare(words.1, gaps.1 + third);
    lemma_word_is_bare(words.0, gaps.0 + second);
    lemma_strip(Seq::empty(), explained@);
    assert(Seq::<char>::empty() + explained@ =~= explained@);
    lemma_strip(gaps.0, second);
    lemma_strip(gaps.1, third);
    lemma_keyword(words.0, gaps.0 + second);
    lemma_keyword(words.1, gaps.1 + third);
    lemma_keyword(words.2, after);
    lemma_blank_front(gaps.2, stmt@);
}

/// No quote, semicolon, dash or slash: nothing that begins a literal, a
/// comment or another statement.
pub open spec fn is_plain(s: Seq<char>) -> bool {
    forall|i: int|
        0 <= i < s.len() ==> #[trigger] s[i] != '\'' && s[i] != '"' && s[i] != '`' && s[i] != ';'
            && s[i] != '-' && s[i] != '/'
}

proof fn lemma_plain(s: Seq<char>, start: int, i: int, j: int)
    requires
        0 <= start <= i <= j <= s.len(),
        forall|k: int|
            i <= k < j ==> #[trigger] s[k] != '\'' && s[k] != '"' && s[k] != '`' && s[k] != ';'
                && s[k] != '-' && s[k] != '/',
    ensures
        tenant_screen::split_from(s, start, i) == tenant_screen::split_from(s, start, j),
    decreases j - i,
{
    if i < j {
        assert(s[i] != ';');
        assert(tenant_screen::element_end(s, i) == Some(i + 1));
        lemma_plain(s, start, i + 1, j);
    }
}

proof fn lemma_one_statement(x: Seq<char>)
    ensures
        tenant_screen::split_objection(
            tenant_screen::Split { statements: seq![x], whole: true },
        ) == tenant_screen::objection(x),
{
    assert(seq![x][0] == x);
    assert(seq![x].skip(1) =~= Seq::<Seq<char>>::empty());
    assert(tenant_screen::first_objection(Seq::<Seq<char>>::empty()) is None);
}

/// A text that holds no quote, comment or semicolon is one statement, and is
/// screened as that.
pub proof fn law_plain_text_is_one_statement(
    sql: &str,
    stmt: &[char],
    r: Result<(), String>,
    q: Result<(), String>,
)
    requires
        call_ensures(screen_sql, (sql,), r),
        call_ensures(check_statement, (stmt,), q),
        stmt@ == sql@,
        is_plain(sql@),
    ensures
        r is Ok <==> q is Ok,
        r is Err && q is Err ==> r->Err_0@ == q->Err_0@,
{
    let s = sql@;
    lemma_plain(s, 0, 0, s.len() as int);
    assert(s.subrange(0, s.len() as int) =~= s);
    lemma_one_statement(s);
    assert(tenant_screen::sql_objection(s) == tenant_screen::objection(s));
}

/// What stands in quotes is data: a semicolon in a literal begins no
/// statement, whatever follows it there.
pub proof fn law_literals_are_data(
    sql: &str,
    stmt: &[char],
    r: Result<(), String>,
    q: Result<(), String>,
    before: Seq<char>,
    quote: char,
    body: Seq<char>,
    after: Seq<char>,
)
    requires
        call_ensures(screen_sql, (sql,), r),
        call_ensures(check_statement, (stmt,), q),
        stmt@ == sql@,
        sql@ == before + seq![quote] + body + seq![quote] + after,
        quote == '\'' || quote == '"' || quote == '`',
        is_plain(before),
        is_plain(after),
        !body.contains(quote),
    ensures
        r is Ok <==> q is Ok,
        r is Err && q is Err ==> r->Err_0@ == q->Err_0@,
{
    let s = sql@;
    let a = before.len() as int;
    let b = a + 1 + body.len();
    assert forall|k: int| 0 <= k < a implies #[trigger] s[k] == before[k] by {}
    lemma_plain(s, 0, 0, a);
    assert(s[a] == quote);
    assert(s[b] == quote);
    assert forall|k: int| a + 1 <= k < b implies #[trigger] s[k] != quote by {
        assert(s[k] == body[k - a - 1]);
    }
    if b + 1 < s.len() {
        assert(s[b + 1] == after[0]);
    }
    lemma_quote(s, a + 1, b, quote);
    assert(tenant_screen::element_end(s, a) == Some(b + 1));
    assert(tenant_screen::split_from(s, 0, a) == tenant_screen::split_from(s, 0, b + 1));
    assert forall|k: int| b + 1 <= k < s.len() implies #[trigger] s[k] == after[k - b - 1] by {}
    lemma_plain(s, 0, b + 1, s.len() as int);
    assert(s.subrange(0, s.len() as int) =~= s);
    assert(tenant_screen::split(s) == (tenant_screen::Split { statements: seq![s], whole: true }));
    lemma_one_statement(s);
    assert(tenant_screen::sql_objection(s) == tenant_screen::objection(s));
}

proof fn lemma_quote(s: Seq<char>, i: int, j: int, quote: char)
    requires
        0 <= i <= j < s.len(),
        forall|k: int| i <= k < j ==> #[trigger] s[k] != quote,
        s[j] == quote,
        j + 1 < s.len() ==> s[j + 1] != quote,
    ensures
        tenant_screen::quote_end(s, i, quote) == Some(j + 1),
    decreases j - i,
{
    if i < j {
        lemma_quote(s, i + 1, j, quote);
    }
}

/// A quote that does not end is refused.
pub proof fn law_open_quotes_are_refused(
    sql: &str,
    r: Result<(), String>,
    before: Seq<char>,
    quote: char,
    body: Seq<char>,
)
    requires
        call_ensures(screen_sql, (sql,), r),
        sql@ == before + seq![quote] + body,
        quote == '\'' || quote == '"' || quote == '`',
        is_plain(before),
        !body.contains(quote),
    ensures
        r matches Err(e) && e@ == "malformed SQL"@,
{
    let s = sql@;
    let a = before.len() as int;
    assert forall|k: int| 0 <= k < a implies #[trigger] s[k] == before[k] by {}
    lemma_plain(s, 0, 0, a);
    assert(s[a] == quote);
    assert forall|k: int| a + 1 <= k < s.len() implies #[trigger] s[k] != quote by {
        assert(s[k] == body[k - a - 1]);
    }
    lemma_open_quote(s, a + 1, quote);
    assert(tenant_screen::first_objection(Seq::<Seq<char>>::empty()) is None);
}

proof fn lemma_open_quote(s: Seq<char>, i: int, quote: char)
    requires
        0 <= i <= s.len(),
        forall|k: int| i <= k < s.len() ==> #[trigger] s[k] != quote,
    ensures
        tenant_screen::quote_end(s, i, quote) is None,
    decreases s.len() - i,
{
    if i < s.len() {
        lemma_open_quote(s, i + 1, quote);
    }
}

/// A statement behind a semicolon is screened too: a plain one in front does
/// not shield it.
pub proof fn law_second_statement_is_screened(
    sql: &str,
    first: &[char],
    second: &str,
    r: Result<(), String>,
    q: Result<(), String>,
    t: Result<(), String>,
)
    requires
        call_ensures(screen_sql, (sql,), r),
        call_ensures(check_statement, (first,), q),
        call_ensures(screen_sql, (second,), t),
        is_plain(first@),
        sql@ == first@ + seq![';'] + second@,
    ensures
        r is Ok <==> q is Ok && t is Ok,
        r is Err && q is Err ==> r->Err_0@ == q->Err_0@,
        r is Err && q is Ok && t is Err ==> r->Err_0@ == t->Err_0@,
{
    let a = first@;
    lemma_plain(a, 0, 0, a.len() as int);
    assert(a.subrange(0, a.len() as int) =~= a);
    lemma_one_statement(a);
    lemma_plain_ends(a, 0);
    let front = tenant_screen::sql_objection(a);
    assert(front == tenant_screen::objection(a));
    lemma_never_malformed(a);
    crate::backend::screen_laws::law_texts_are_screened_in_turn(a, second@);
}

proof fn lemma_plain_ends(s: Seq<char>, i: int)
    requires
        is_plain(s),
        0 <= i <= s.len(),
    ensures
        !crate::backend::screen_laws::ends_in_line_comment(s, i),
    decreases s.len() - i,
{
    if i < s.len() {
        assert(s[i] != '-');
        assert(tenant_screen::element_end(s, i) == Some(i + 1));
        lemma_plain_ends(s, i + 1);
    }
}

/// What is objected to in a statement is never its form.
proof fn lemma_never_malformed(stmt: Seq<char>)
    ensures
        tenant_screen::objection(stmt) != Some("malformed SQL"@),
{
    reveal_strlit("malformed SQL");
    reveal_strlit("EXPLAIN");
    reveal_strlit("ATTACH");
    reveal_strlit("DETACH");
    reveal_strlit("VACUUM INTO");
    reveal_strlit("PRAGMA ");
    assert("malformed SQL"@[0] == 'm');
    assert("EXPLAIN"@[0] == 'E' && "ATTACH"@[0] == 'A' && "DETACH"@[0] == 'D');
    assert("VACUUM INTO"@[0] == 'V' && "PRAGMA "@[0] == 'P');
    if let Some(o) = tenant_screen::objection(stmt) {
        if tenant_screen::strip_explain(tenant_screen::strip_noise(stmt)) is Some {
            let s = tenant_screen::strip_explain(tenant_screen::strip_noise(stmt))->0;
            if tenant_screen::keyword(s) == "PRAGMA"@ {
                let parts = tenant_screen::name_parts(
                    tenant_screen::strip_noise(tenant_screen::after_keyword(s)),
                );
                if let Some(name) = tenant_screen::first_forbidden(parts) {
                    assert(("PRAGMA "@ + name)[0] == 'P');
                }
            }
        }
        assert(o[0] != 'm');
    }
}

/// A call of a screened session goes to the session underneath, as it was
/// made, exactly where its text passes the screen, whatever it asks for; else
/// the caller is told which statement is not permitted.
pub proof fn law_screened_calls<'a, C>(
    conn: &'a ScreenedConn<C>,
    sql: &'a str,
    params: &'a [Value],
    screened: Result<(), String>,
    query: Result<Passed<'a, C>, BackendError>,
    execute: Result<Passed<'a, C>, BackendError>,
    describe: Result<Passed<'a, C>, BackendError>,
)
    requires
        call_ensures(screen_sql, (sql,), screened),
        call_ensures(ScreenedConn::<C>::query, (conn, sql, params), query),
        call_ensures(ScreenedConn::<C>::execute, (conn, sql, params), execute),
        call_ensures(ScreenedConn::<C>::describe_columns, (conn, sql), describe),
    ensures
        screened is Ok ==> {
            &&& query == Ok::<Passed<'a, C>, BackendError>(
                Passed::Query { conn: &conn.inner, sql, params },
            )
            &&& execute == Ok::<Passed<'a, C>, BackendError>(
                Passed::Execute { conn: &conn.inner, sql, params },
            )
            &&& describe == Ok::<Passed<'a, C>, BackendError>(
                Passed::DescribeColumns { conn: &conn.inner, sql },
            )
        },
        screened matches Err(e) ==> {
            let told = "statement type `"@ + e@ + "` is not permitted on a tenant session"@;
            &&& query matches Err(BackendError::Sqlite(m)) && m@ == told
            &&& execute matches Err(BackendError::Sqlite(m)) && m@ == told
            &&& describe matches Err(BackendError::Sqlite(m)) && m@ == told
        },
{
}

} // verus!
