//! What holds of the screen for every SQL text: it works statement by
//! statement, it does not look at the case of letters, and what it takes for
//! noise is white space and comments.
use crate::backend::tenant_screen;
use vstd::prelude::*;

verus! {

proof fn lemma_quote_end_behind(p: Seq<char>, b: Seq<char>, i: int, quote: char)
    requires
        0 <= i,
    ensures
        tenant_screen::quote_end(p + b, p.len() + i, quote)
            == match tenant_screen::quote_end(b, i, quote) {
            Some(e) => Some(p.len() + e),
            None => None,
        },
    decreases b.len() - i,
{
    if i < b.len() {
        assert((p + b)[p.len() + i] == b[i]);
        if b[i] != quote {
            lemma_quote_end_behind(p, b, i + 1, quote);
        } else if i + 1 < b.len() {
            assert((p + b)[p.len() + i + 1] == b[i + 1]);
            if b[i + 1] == quote {
                lemma_quote_end_behind(p, b, i + 2, quote);
            }
        }
    }
}

proof fn lemma_line_end_behind(p: Seq<char>, b: Seq<char>, i: int)
    requires
        0 <= i,
    ensures
        tenant_screen::line_end(p + b, p.len() + i) == p.len()
            + tenant_screen::line_end(b, i),
    decreases b.len() - i,
{
    if i < b.len() {
        assert((p + b)[p.len() + i] == b[i]);
        if b[i] != '\n' {
            lemma_line_end_behind(p, b, i + 1);
        }
    }
}

proof fn lemma_block_end_behind(p: Seq<char>, b: Seq<char>, i: int)
    requires
        0 <= i,
    ensures
        tenant_screen::block_end(p + b, p.len() + i)
            == match tenant_screen::block_end(b, i) {
            Some(e) => Some(p.len() + e),
            None => None,
        },
    decreases b.len() - i,
{
    if i + 1 < b.len() {
        assert((p + b)[p.len() + i] == b[i]);
        assert((p + b)[p.len() + i + 1] == b[i + 1]);
        if !(b[i] == '*' && b[i + 1] == '/') {
            lemma_block_end_behind(p, b, i + 1);
        }
    }
}

proof fn lemma_element_end_behind(p: Seq<char>, b: Seq<char>, i: int)
    requires
        0 <= i < b.len(),
    ensures
        tenant_screen::element_end(p + b, p.len() + i)
            == match tenant_screen::element_end(b, i) {
            Some(e) => Some(p.len() + e),
            None => None,
        },
{
    assert((p + b)[p.len() + i] == b[i]);
    if i + 1 < b.len() {
        assert((p + b)[p.len() + i + 1] == b[i + 1]);
    }
    lemma_quote_end_behind(p, b, i + 1, b[i]);
    lemma_line_end_behind(p, b, i + 2);
    lemma_block_end_behind(p, b, i + 2);
}

proof fn lemma_split_behind(p: Seq<char>, b: Seq<char>, start: int, i: int)
    requires
        0 <= start <= i <= b.len(),
    ensures
        tenant_screen::split_from(p + b, p.len() + start, p.len() + i)
            == tenant_screen::split_from(b, start, i),
    decreases b.len() - i,
{
    let s = p + b;
    if i >= b.len() {
        assert(s.subrange(p.len() + start, s.len() as int) =~= b.subrange(start, b.len() as int));
    } else {
        assert(s[p.len() + i] == b[i]);
        if b[i] == ';' {
            lemma_split_behind(p, b, i + 1, i + 1);
            assert(s.subrange(p.len() + start, p.len() + i) =~= b.subrange(start, i));
        } else {
            lemma_element_end_behind(p, b, i);
            tenant_screen::lemma_element_end(b, i);
            if let Some(e) = tenant_screen::element_end(b, i) {
                lemma_split_behind(p, b, start, e);
            }
        }
    }
}

/// The text from `i` on ends inside a line comment.
pub open spec fn ends_in_line_comment(s: Seq<char>, i: int) -> bool
    decreases s.len() - i,
{
    if i < 0 || i >= s.len() {
        false
    } else if s[i] == '-' && i + 1 < s.len() && s[i + 1] == '-'
        && tenant_screen::line_end(s, i + 2) >= s.len() {
        true
    } else {
        match tenant_screen::element_end(s, i) {
            None => false,
            Some(e) => {
                proof {
                    tenant_screen::lemma_element_end(s, i);
                }
                ends_in_line_comment(s, e)
            },
        }
    }
}

proof fn lemma_quote_end_before(a: Seq<char>, rest: Seq<char>, i: int, quote: char)
    requires
        0 <= i,
        rest.len() > 0,
        rest[0] != quote,
        tenant_screen::quote_end(a, i, quote) is Some,
    ensures
        tenant_screen::quote_end(a + rest, i, quote)
            == tenant_screen::quote_end(a, i, quote),
    decreases a.len() - i,
{
    let s = a + rest;
    if i < a.len() {
        assert(s[i] == a[i]);
        if a[i] != quote {
            lemma_quote_end_before(a, rest, i + 1, quote);
        } else if i + 1 < a.len() {
            assert(s[i + 1] == a[i + 1]);
            if a[i + 1] == quote {
                lemma_quote_end_before(a, rest, i + 2, quote);
            }
        } else {
            assert(s[i + 1] == rest[0]);
        }
    }
}

proof fn lemma_line_end_before(a: Seq<char>, rest: Seq<char>, i: int)
    requires
        0 <= i,
        tenant_screen::line_end(a, i) < a.len(),
    ensures
        tenant_screen::line_end(a + rest, i)
            == tenant_screen::line_end(a, i),
    decreases a.len() - i,
{
    if i < a.len() {
        assert((a + rest)[i] == a[i]);
        if a[i] != '\n' {
            lemma_line_end_before(a, rest, i + 1);
        }
    }
}

proof fn lemma_block_end_before(a: Seq<char>, rest: Seq<char>, i: int)
    requires
        0 <= i,
        tenant_screen::block_end(a, i) is Some,
    ensures
        tenant_screen::block_end(a + rest, i)
            == tenant_screen::block_end(a, i),
    decreases a.len() - i,
{
    if i + 1 < a.len() {
        assert((a + rest)[i] == a[i]);
        assert((a + rest)[i + 1] == a[i + 1]);
        if !(a[i] == '*' && a[i + 1] == '/') {
            lemma_block_end_before(a, rest, i + 1);
        }
    }
}

/// One statement in front of others is screened first.
proof fn lemma_statement_in_front(x: Seq<char>, rest: tenant_screen::Split)
    ensures
        tenant_screen::split_objection(
            tenant_screen::Split {
                statements: seq![x] + rest.statements,
                whole: rest.whole,
            },
        ) == match tenant_screen::objection(x) {
            Some(o) => Some(o),
            None => tenant_screen::split_objection(rest),
        },
{
    let all = seq![x] + rest.statements;
    assert(all[0] == x);
    assert(all.skip(1) =~= rest.statements);
}

proof fn lemma_pieces(a: Seq<char>, b: Seq<char>, start: int, i: int)
    requires
        0 <= start <= i <= a.len(),
        !ends_in_line_comment(a, i),
        tenant_screen::split_objection(
            tenant_screen::split_from(a, start, i),
        ) != Some("malformed SQL"@),
    ensures
        tenant_screen::split_objection(
            tenant_screen::split_from(a + seq![';'] + b, start, i),
        ) == match tenant_screen::split_objection(
            tenant_screen::split_from(a, start, i),
        ) {
            Some(o) => Some(o),
            None => tenant_screen::sql_objection(b),
        },
    decreases a.len() - i,
{
    let rest = seq![';'] + b;
    let s = a + seq![';'] + b;
    assert(s =~= a + rest);
    if i >= a.len() {
        let front = a + seq![';'];
        assert(s =~= front + b);
        assert(s[i] == ';');
        lemma_split_behind(front, b, 0, 0);
        assert(s.subrange(start, i) =~= a.subrange(start, a.len() as int));
        let x = a.subrange(start, a.len() as int);
        lemma_statement_in_front(x, tenant_screen::split(b));
        let none = tenant_screen::Split { statements: Seq::empty(), whole: true };
        lemma_statement_in_front(x, none);
        assert(seq![x] + none.statements =~= seq![x]);
        assert(tenant_screen::first_objection(none.statements) is None);
    } else {
        assert(s[i] == a[i]);
        tenant_screen::lemma_element_end(a, i);
        if a[i] == ';' {
            assert(s.subrange(start, i) =~= a.subrange(start, i));
            let x = a.subrange(start, i);
            lemma_statement_in_front(
                x,
                tenant_screen::split_from(a, i + 1, i + 1),
            );
            lemma_statement_in_front(
                x,
                tenant_screen::split_from(s, i + 1, i + 1),
            );
            assert(tenant_screen::element_end(a, i) == Some(i + 1));
            if tenant_screen::objection(x) is None {
                lemma_pieces(a, b, i + 1, i + 1);
            }
        } else {
            match tenant_screen::element_end(a, i) {
                None => {
                    assert(tenant_screen::first_objection(
                        Seq::<Seq<char>>::empty(),
                    ) is None);
                },
                Some(e) => {
                    assert(rest[0] == ';');
                    if i + 1 < a.len() {
                        assert(s[i + 1] == a[i + 1]);
                    } else {
                        assert(s[i + 1] == ';');
                    }
                    if a[i] == '\'' || a[i] == '"' || a[i] == '`' {
                        lemma_quote_end_before(a, rest, i + 1, a[i]);
                    } else if a[i] == '-' && i + 1 < a.len() && a[i + 1] == '-' {
                        lemma_line_end_before(a, rest, i + 2);
                    } else if a[i] == '/' && i + 1 < a.len() && a[i + 1] == '*' {
                        lemma_block_end_before(a, rest, i + 2);
                    }
                    assert(tenant_screen::element_end(s, i) == Some(e));
                    lemma_pieces(a, b, start, e);
                },
            }
        }
    }
}

/// Two texts with a semicolon between them are screened one after the other,
/// unless the first is refused as malformed or ends in a line comment.
pub proof fn law_texts_are_screened_in_turn(a: Seq<char>, b: Seq<char>)
    requires
        !ends_in_line_comment(a, 0),
        tenant_screen::sql_objection(a) != Some("malformed SQL"@),
    ensures
        tenant_screen::sql_objection(a + seq![';'] + b)
            == match tenant_screen::sql_objection(a) {
            Some(o) => Some(o),
            None => tenant_screen::sql_objection(b),
        },
{
    lemma_pieces(a, b, 0, 0);
}

/// Only white space and comments. Each comment ends, or where `open` allows
/// it the last one may go on to the end.
pub open spec fn is_noise(s: Seq<char>, open: bool) -> bool
    decreases s.len(),
{
    if s.len() == 0 {
        true
    } else if crate::text::is_space(s[0]) {
        is_noise(s.skip(1), open)
    } else if s.len() >= 2 && s[0] == '-' && s[1] == '-' {
        match crate::text::find(s.skip(2), seq!['\n']) {
            Some(at) => {
                proof {
                    tenant_screen::lemma_find_from_bounds(s.skip(2), seq!['\n'], 0);
                }
                is_noise(s.skip(2).skip(at + 1), open)
            },
            None => open,
        }
    } else if s.len() >= 2 && s[0] == '/' && s[1] == '*' {
        match crate::text::find(s.skip(2), seq!['*', '/']) {
            Some(at) => {
                proof {
                    tenant_screen::lemma_find_from_bounds(s.skip(2), seq!['*', '/'], 0);
                }
                is_noise(s.skip(2).skip(at + 2), open)
            },
            None => open,
        }
    } else {
        false
    }
}

/// `s` begins with white space or a comment.
pub open spec fn begins_with_noise(s: Seq<char>) -> bool {
    &&& s.len() > 0
    &&& {
        ||| crate::text::is_space(s[0])
        ||| crate::text::begins_with(s, "--"@)
        ||| crate::text::begins_with(s, "/*"@)
    }
}

proof fn lemma_find_in_front(hay: Seq<char>, needle: Seq<char>, from: int, end: int)
    requires
        0 <= from,
        end <= hay.len(),
        crate::text::find_from(hay, needle, from) matches Some(at) && at + needle.len() <= end,
    ensures
        crate::text::find_from(hay.take(end), needle, from) == crate::text::find_from(
            hay,
            needle,
            from,
        ),
    decreases hay.len() + 1 - from,
{
    tenant_screen::lemma_find_from_bounds(hay, needle, from);
    let front = hay.take(end);
    assert(front.subrange(from, from + needle.len()) =~= hay.subrange(from, from + needle.len()));
    if !crate::text::stands_at(hay, needle, from) {
        lemma_find_in_front(hay, needle, from + 1, end);
    }
}

/// What is stripped of `s` where `s` begins with a space.
proof fn lemma_strip_space(s: Seq<char>)
    requires
        s.len() > 0,
        crate::text::is_space(s[0]),
    ensures
        tenant_screen::strip_noise(s) == tenant_screen::strip_noise(s.skip(1)),
{
    assert(crate::text::trim_start(s) == crate::text::trim_start(s.skip(1)));
}

/// What is left of a text without the noise in front is its end, with no
/// noise in front, and stays as it is. What was dropped is white space and
/// whole comments; all is dropped exactly where there is nothing else, though
/// the last comment does not end.
pub proof fn law_only_noise_is_stripped(s: Seq<char>)
    ensures
        ({
            let r = tenant_screen::strip_noise(s);
            &&& r.len() <= s.len()
            &&& r == s.skip(s.len() - r.len())
            &&& !begins_with_noise(r)
            &&& tenant_screen::strip_noise(r) == r
            &&& r.len() > 0 ==> is_noise(s.take(s.len() - r.len()), false)
            &&& r.len() == 0 <==> is_noise(s, true)
        }),
    decreases s.len(), 1nat,
{
    let r = tenant_screen::strip_noise(s);
    let n = s.len() - r.len();
    tenant_screen::law_strip_noise_is_final(s);
    tenant_screen::lemma_strip_noise_len(s);
    reveal_strlit("--");
    reveal_strlit("/*");
    if s.len() == 0 {
        assert(r =~= s.skip(0));
    } else if crate::text::is_space(s[0]) {
        let t = s.skip(1);
        lemma_strip_space(s);
        law_only_noise_is_stripped(t);
        assert(s.skip(n) =~= t.skip(n - 1));
        if r.len() > 0 {
            assert(s.take(n).skip(1) =~= t.take(n - 1));
        }
    } else {
        assert(crate::text::trim_start(s) == s);
        if s.len() >= 2 && s[0] == '-' && s[1] == '-' {
            lemma_comment(s, seq!['\n']);
        } else if s.len() >= 2 && s[0] == '/' && s[1] == '*' {
            lemma_comment(s, seq!['*', '/']);
        } else {
            assert(r == s);
            assert(s =~= s.skip(0));
            assert(s.take(0) =~= Seq::<char>::empty());
            if crate::text::begins_with(s, "--"@) {
                assert(s.subrange(0, 2)[0] == s[0] && s.subrange(0, 2)[1] == s[1]);
            }
            if crate::text::begins_with(s, "/*"@) {
                assert(s.subrange(0, 2)[0] == s[0] && s.subrange(0, 2)[1] == s[1]);
            }
        }
    }
}

/// The law for a text that begins with a comment which `close` ends.
proof fn lemma_comment(s: Seq<char>, close: Seq<char>)
    requires
        s.len() >= 2,
        !crate::text::is_space(s[0]),
        ({
            ||| s[0] == '-' && s[1] == '-' && close == seq!['\n']
            ||| s[0] == '/' && s[1] == '*' && close == seq!['*', '/']
        }),
    ensures
        ({
            let r = tenant_screen::strip_noise(s);
            &&& r.len() <= s.len()
            &&& r == s.skip(s.len() - r.len())
            &&& !begins_with_noise(r)
            &&& r.len() > 0 ==> is_noise(s.take(s.len() - r.len()), false)
            &&& r.len() == 0 <==> is_noise(s, true)
        }),
    decreases s.len(), 0nat,
{
    let r = tenant_screen::strip_noise(s);
    let n = s.len() - r.len();
    let inner = s.skip(2);
    assert(crate::text::trim_start(s) == s);
    tenant_screen::lemma_strip_noise_len(s);
    tenant_screen::lemma_find_from_bounds(inner, close, 0);
    match crate::text::find(inner, close) {
        Some(at) => {
            let t = inner.skip(at + close.len());
            law_only_noise_is_stripped(t);
            let skipped = 2 + at + close.len();
            assert(t =~= s.skip(skipped));
            assert(s.skip(n) =~= t.skip(n - skipped));
            if r.len() > 0 {
                let front = s.take(n);
                assert(front.skip(2) =~= inner.take(n - 2));
                lemma_find_in_front(inner, close, 0, n - 2);
                assert(front.skip(2).skip(at + close.len()) =~= t.take(n - skipped));
            }
        },
        None => {
            assert(r =~= s.skip(n));
        },
    }
}

/// The same text but for the case of its ASCII letters.
pub open spec fn same_but_case(a: Seq<char>, b: Seq<char>) -> bool {
    &&& a.len() == b.len()
    &&& forall|i: int|
        0 <= i < a.len() ==> crate::text::ascii_lower(#[trigger] a[i]) == crate::text::ascii_lower(
            b[i],
        )
}

/// A character that is no letter has no other case.
proof fn lemma_same_char(x: char, y: char)
    requires
        crate::text::ascii_lower(x) == crate::text::ascii_lower(y),
    ensures
        crate::text::ascii_upper(x) == crate::text::ascii_upper(y),
        tenant_screen::is_letter(x) == tenant_screen::is_letter(y),
        tenant_screen::is_identifier_char(x) == tenant_screen::is_identifier_char(y),
        crate::text::is_space(x) == crate::text::is_space(y),
        !tenant_screen::is_letter(x) ==> x == y,
{
}

proof fn lemma_case_at(a: Seq<char>, b: Seq<char>, i: int)
    requires
        same_but_case(a, b),
        0 <= i < a.len(),
    ensures
        crate::text::ascii_lower(a[i]) == crate::text::ascii_lower(b[i]),
        crate::text::ascii_upper(a[i]) == crate::text::ascii_upper(b[i]),
        tenant_screen::is_letter(a[i]) == tenant_screen::is_letter(b[i]),
        tenant_screen::is_identifier_char(a[i]) == tenant_screen::is_identifier_char(b[i]),
        crate::text::is_space(a[i]) == crate::text::is_space(b[i]),
        !tenant_screen::is_letter(a[i]) ==> a[i] == b[i],
        !tenant_screen::is_letter(b[i]) ==> a[i] == b[i],
{
    lemma_same_char(a[i], b[i]);
}

proof fn lemma_case_of_parts(a: Seq<char>, b: Seq<char>, from: int, to: int)
    requires
        same_but_case(a, b),
        0 <= from <= to <= a.len(),
    ensures
        same_but_case(a.subrange(from, to), b.subrange(from, to)),
        same_but_case(a.skip(from), b.skip(from)),
        same_but_case(a.take(to), b.take(to)),
        crate::text::lower(a) == crate::text::lower(b),
        crate::text::upper(a) == crate::text::upper(b),
{
    assert forall|i: int| 0 <= i < a.len() implies crate::text::ascii_upper(#[trigger] a[i])
        == crate::text::ascii_upper(b[i]) by {
        lemma_case_at(a, b, i);
    }
    assert(crate::text::lower(a) =~= crate::text::lower(b));
    assert(crate::text::upper(a) =~= crate::text::upper(b));
}

proof fn lemma_case_letters_end(a: Seq<char>, b: Seq<char>, i: int)
    requires
        same_but_case(a, b),
        0 <= i,
    ensures
        tenant_screen::letters_end(a, i) == tenant_screen::letters_end(b, i),
    decreases a.len() - i,
{
    if i < a.len() {
        lemma_case_at(a, b, i);
        if tenant_screen::is_letter(a[i]) {
            lemma_case_letters_end(a, b, i + 1);
        }
    }
}

proof fn lemma_case_identifier_end(a: Seq<char>, b: Seq<char>, i: int)
    requires
        same_but_case(a, b),
        0 <= i,
    ensures
        tenant_screen::identifier_end(a, i) == tenant_screen::identifier_end(b, i),
    decreases a.len() - i,
{
    if i < a.len() {
        lemma_case_at(a, b, i);
        if tenant_screen::is_identifier_char(a[i]) {
            lemma_case_identifier_end(a, b, i + 1);
        }
    }
}

proof fn lemma_case_keyword(a: Seq<char>, b: Seq<char>)
    requires
        same_but_case(a, b),
    ensures
        tenant_screen::keyword(a) == tenant_screen::keyword(b),
        same_but_case(tenant_screen::after_keyword(a), tenant_screen::after_keyword(b)),
{
    lemma_case_letters_end(a, b, 0);
    tenant_screen::lemma_letters_end(a, 0);
    let n = tenant_screen::letters_end(a, 0);
    lemma_case_of_parts(a, b, n, n);
    lemma_case_of_parts(a.take(n), b.take(n), 0, 0);
}

proof fn lemma_case_trim_start(a: Seq<char>, b: Seq<char>)
    requires
        same_but_case(a, b),
    ensures
        same_but_case(crate::text::trim_start(a), crate::text::trim_start(b)),
    decreases a.len(),
{
    if a.len() > 0 {
        lemma_case_at(a, b, 0);
        if crate::text::is_space(a[0]) {
            lemma_case_of_parts(a, b, 1, 1);
            lemma_case_trim_start(a.skip(1), b.skip(1));
        }
    }
}

proof fn lemma_case_find(a: Seq<char>, b: Seq<char>, needle: Seq<char>, from: int)
    requires
        same_but_case(a, b),
        forall|i: int| 0 <= i < needle.len() ==> !tenant_screen::is_letter(#[trigger] needle[i]),
        0 <= from,
    ensures
        crate::text::find_from(a, needle, from) == crate::text::find_from(b, needle, from),
    decreases a.len() + 1 - from,
{
    if from + needle.len() <= a.len() {
        let x = a.subrange(from, from + needle.len());
        let y = b.subrange(from, from + needle.len());
        assert(x == needle <==> y == needle) by {
            if x == needle {
                assert forall|i: int| 0 <= i < needle.len() implies y[i] == needle[i] by {
                    lemma_case_at(a, b, from + i);
                    assert(x[i] == a[from + i]);
                }
                assert(y =~= needle);
            }
            if y == needle {
                assert forall|i: int| 0 <= i < needle.len() implies x[i] == needle[i] by {
                    lemma_case_at(a, b, from + i);
                    assert(y[i] == b[from + i]);
                }
                assert(x =~= needle);
            }
        }
        lemma_case_find(a, b, needle, from + 1);
    }
}

proof fn lemma_case_strip_noise(a: Seq<char>, b: Seq<char>)
    requires
        same_but_case(a, b),
    ensures
        same_but_case(tenant_screen::strip_noise(a), tenant_screen::strip_noise(b)),
    decreases a.len(),
{
    let t = crate::text::trim_start(a);
    let u = crate::text::trim_start(b);
    lemma_case_trim_start(a, b);
    tenant_screen::lemma_trim_start_len(a);
    if t.len() >= 2 {
        lemma_case_at(t, u, 0);
        lemma_case_at(t, u, 1);
        lemma_case_of_parts(t, u, 2, 2);
        let x = t.skip(2);
        let y = u.skip(2);
        if t[0] == '-' && t[1] == '-' {
            lemma_case_find(x, y, seq!['\n'], 0);
            tenant_screen::lemma_find_from_bounds(x, seq!['\n'], 0);
            if let Some(at) = crate::text::find(x, seq!['\n']) {
                lemma_case_of_parts(x, y, at + 1, at + 1);
                lemma_case_strip_noise(x.skip(at + 1), y.skip(at + 1));
            }
        } else if t[0] == '/' && t[1] == '*' {
            lemma_case_find(x, y, seq!['*', '/'], 0);
            tenant_screen::lemma_find_from_bounds(x, seq!['*', '/'], 0);
            if let Some(at) = crate::text::find(x, seq!['*', '/']) {
                lemma_case_of_parts(x, y, at + 2, at + 2);
                lemma_case_strip_noise(x.skip(at + 2), y.skip(at + 2));
            }
        }
    }
}

/// The next word, noise aside.
proof fn lemma_case_next_word(a: Seq<char>, b: Seq<char>)
    requires
        same_but_case(a, b),
    ensures
        tenant_screen::keyword(a) == tenant_screen::keyword(b),
        same_but_case(
            tenant_screen::strip_noise(tenant_screen::after_keyword(a)),
            tenant_screen::strip_noise(tenant_screen::after_keyword(b)),
        ),
{
    lemma_case_keyword(a, b);
    lemma_case_strip_noise(tenant_screen::after_keyword(a), tenant_screen::after_keyword(b));
}

proof fn lemma_case_strip_explain(a: Seq<char>, b: Seq<char>)
    requires
        same_but_case(a, b),
    ensures
        match (tenant_screen::strip_explain(a), tenant_screen::strip_explain(b)) {
            (Some(x), Some(y)) => same_but_case(x, y),
            (None, None) => true,
            _ => false,
        },
    decreases a.len(),
{
    lemma_case_next_word(a, b);
    tenant_screen::lemma_after_keyword_len(a);
    if tenant_screen::keyword(a) == "EXPLAIN"@ {
        let x = tenant_screen::strip_noise(tenant_screen::after_keyword(a));
        let y = tenant_screen::strip_noise(tenant_screen::after_keyword(b));
        lemma_case_next_word(x, y);
        tenant_screen::lemma_after_keyword_len(x);
        if tenant_screen::keyword(x) != "QUERY"@ {
            lemma_case_strip_explain(x, y);
        } else {
            let p = tenant_screen::strip_noise(tenant_screen::after_keyword(x));
            let q = tenant_screen::strip_noise(tenant_screen::after_keyword(y));
            lemma_case_next_word(p, q);
            tenant_screen::lemma_after_keyword_len(p);
            if tenant_screen::keyword(p) == "PLAN"@ {
                lemma_case_strip_explain(
                    tenant_screen::strip_noise(tenant_screen::after_keyword(p)),
                    tenant_screen::strip_noise(tenant_screen::after_keyword(q)),
                );
            }
        }
    }
}

proof fn lemma_case_closed_at(a: Seq<char>, b: Seq<char>, i: int, close: char)
    requires
        same_but_case(a, b),
        0 <= i,
        !tenant_screen::is_letter(close),
    ensures
        tenant_screen::closed_at(a, i, close) == tenant_screen::closed_at(b, i, close),
    decreases a.len() - i,
{
    if i < a.len() {
        lemma_case_at(a, b, i);
        if a[i] != close {
            lemma_case_closed_at(a, b, i + 1, close);
        } else if i + 1 < a.len() {
            lemma_case_at(a, b, i + 1);
            if close != ']' && a[i + 1] == close {
                lemma_case_closed_at(a, b, i + 2, close);
            }
        }
    }
}

proof fn lemma_case_undoubled(a: Seq<char>, b: Seq<char>, quote: char)
    requires
        same_but_case(a, b),
        !tenant_screen::is_letter(quote),
    ensures
        same_but_case(tenant_screen::undoubled(a, quote), tenant_screen::undoubled(b, quote)),
    decreases a.len(),
{
    if a.len() > 0 {
        lemma_case_at(a, b, 0);
        if a.len() >= 2 {
            lemma_case_at(a, b, 1);
        }
        if a.len() >= 2 && a[0] == quote && a[1] == quote {
            lemma_case_of_parts(a, b, 2, 2);
            lemma_case_undoubled(a.skip(2), b.skip(2), quote);
        } else {
            lemma_case_of_parts(a, b, 1, 1);
            lemma_case_undoubled(a.skip(1), b.skip(1), quote);
        }
    }
}

proof fn lemma_case_identifier(a: Seq<char>, b: Seq<char>)
    requires
        same_but_case(a, b),
    ensures
        match (tenant_screen::identifier(a), tenant_screen::identifier(b)) {
            (Some((name, after)), Some((other, rest))) => {
                &&& same_but_case(name, other)
                &&& same_but_case(after, rest)
            },
            (None, None) => true,
            _ => false,
        },
{
    if a.len() > 0 {
        lemma_case_at(a, b, 0);
        assert(tenant_screen::closing(a[0]) == tenant_screen::closing(b[0]));
        match tenant_screen::closing(a[0]) {
            None => {
                lemma_case_identifier_end(a, b, 0);
                tenant_screen::lemma_identifier_end(a, 0);
                let n = tenant_screen::identifier_end(a, 0);
                lemma_case_of_parts(a, b, n, n);
            },
            Some(close) => {
                lemma_case_closed_at(a, b, 1, close);
                tenant_screen::lemma_closed_at(a, 1, close);
                if let Some(at) = tenant_screen::closed_at(a, 1, close) {
                    lemma_case_of_parts(a, b, 1, at);
                    lemma_case_of_parts(a, b, at + 1, at + 1);
                    lemma_case_undoubled(a.subrange(1, at), b.subrange(1, at), close);
                }
            },
        }
    }
}

proof fn lemma_case_name_parts(a: Seq<char>, b: Seq<char>)
    requires
        same_but_case(a, b),
    ensures
        tenant_screen::name_parts(a) == tenant_screen::name_parts(b),
    decreases a.len(),
{
    lemma_case_identifier(a, b);
    tenant_screen::lemma_identifier_shorter(a);
    if let Some((name, after)) = tenant_screen::identifier(a) {
        let (other, rest) = tenant_screen::identifier(b)->0;
        lemma_case_of_parts(name, other, 0, 0);
        lemma_case_strip_noise(after, rest);
        tenant_screen::lemma_strip_noise_len(after);
        let x = tenant_screen::strip_noise(after);
        let y = tenant_screen::strip_noise(rest);
        if x.len() > 0 {
            lemma_case_at(x, y, 0);
            if x[0] == '.' {
                lemma_case_of_parts(x, y, 1, 1);
                lemma_case_strip_noise(x.skip(1), y.skip(1));
                tenant_screen::lemma_strip_noise_len(x.skip(1));
                lemma_case_name_parts(
                    tenant_screen::strip_noise(x.skip(1)),
                    tenant_screen::strip_noise(y.skip(1)),
                );
            }
        }
    }
}

proof fn lemma_case_objection(a: Seq<char>, b: Seq<char>)
    requires
        same_but_case(a, b),
    ensures
        tenant_screen::objection(a) == tenant_screen::objection(b),
{
    let x = tenant_screen::strip_noise(a);
    let y = tenant_screen::strip_noise(b);
    lemma_case_strip_noise(a, b);
    lemma_case_strip_explain(x, y);
    if let Some(s) = tenant_screen::strip_explain(x) {
        let t = tenant_screen::strip_explain(y)->0;
        lemma_case_next_word(s, t);
        lemma_case_name_parts(
            tenant_screen::strip_noise(tenant_screen::after_keyword(s)),
            tenant_screen::strip_noise(tenant_screen::after_keyword(t)),
        );
    }
}

proof fn lemma_case_quote_end(a: Seq<char>, b: Seq<char>, i: int, quote: char)
    requires
        same_but_case(a, b),
        0 <= i,
        !tenant_screen::is_letter(quote),
    ensures
        tenant_screen::quote_end(a, i, quote) == tenant_screen::quote_end(b, i, quote),
    decreases a.len() - i,
{
    if i < a.len() {
        lemma_case_at(a, b, i);
        if a[i] != quote {
            lemma_case_quote_end(a, b, i + 1, quote);
        } else if i + 1 < a.len() {
            lemma_case_at(a, b, i + 1);
            if a[i + 1] == quote {
                lemma_case_quote_end(a, b, i + 2, quote);
            }
        }
    }
}

proof fn lemma_case_line_end(a: Seq<char>, b: Seq<char>, i: int)
    requires
        same_but_case(a, b),
        0 <= i,
    ensures
        tenant_screen::line_end(a, i) == tenant_screen::line_end(b, i),
    decreases a.len() - i,
{
    if i < a.len() {
        lemma_case_at(a, b, i);
        if a[i] != '\n' {
            lemma_case_line_end(a, b, i + 1);
        }
    }
}

proof fn lemma_case_block_end(a: Seq<char>, b: Seq<char>, i: int)
    requires
        same_but_case(a, b),
        0 <= i,
    ensures
        tenant_screen::block_end(a, i) == tenant_screen::block_end(b, i),
    decreases a.len() - i,
{
    if i + 1 < a.len() {
        lemma_case_at(a, b, i);
        lemma_case_at(a, b, i + 1);
        if !(a[i] == '*' && a[i + 1] == '/') {
            lemma_case_block_end(a, b, i + 1);
        }
    }
}

proof fn lemma_case_element_end(a: Seq<char>, b: Seq<char>, i: int)
    requires
        same_but_case(a, b),
        0 <= i < a.len(),
    ensures
        tenant_screen::element_end(a, i) == tenant_screen::element_end(b, i),
{
    lemma_case_at(a, b, i);
    if i + 1 < a.len() {
        lemma_case_at(a, b, i + 1);
    }
    if !tenant_screen::is_letter(a[i]) {
        lemma_case_quote_end(a, b, i + 1, a[i]);
    }
    lemma_case_line_end(a, b, i + 2);
    lemma_case_block_end(a, b, i + 2);
}

proof fn lemma_case_split(a: Seq<char>, b: Seq<char>, start: int, i: int)
    requires
        same_but_case(a, b),
        0 <= start <= i <= a.len(),
    ensures
        tenant_screen::split_objection(tenant_screen::split_from(a, start, i))
            == tenant_screen::split_objection(tenant_screen::split_from(b, start, i)),
    decreases a.len() - i,
{
    if i >= a.len() {
        let x = a.subrange(start, a.len() as int);
        let y = b.subrange(start, b.len() as int);
        let none = tenant_screen::Split { statements: Seq::empty(), whole: true };
        lemma_case_of_parts(a, b, start, a.len() as int);
        lemma_case_objection(x, y);
        lemma_statement_in_front(x, none);
        lemma_statement_in_front(y, none);
        assert(seq![x] + none.statements =~= seq![x]);
        assert(seq![y] + none.statements =~= seq![y]);
    } else {
        lemma_case_at(a, b, i);
        if a[i] == ';' {
            let x = a.subrange(start, i);
            let y = b.subrange(start, i);
            lemma_case_of_parts(a, b, start, i);
            lemma_case_objection(x, y);
            lemma_case_split(a, b, i + 1, i + 1);
            lemma_statement_in_front(x, tenant_screen::split_from(a, i + 1, i + 1));
            lemma_statement_in_front(y, tenant_screen::split_from(b, i + 1, i + 1));
        } else {
            lemma_case_element_end(a, b, i);
            tenant_screen::lemma_element_end(a, i);
            if let Some(e) = tenant_screen::element_end(a, i) {
                lemma_case_split(a, b, start, e);
            }
        }
    }
}

/// The case of ASCII letters plays no part in screening: neither whether a
/// text is refused, nor with what words.
pub proof fn law_case_plays_no_part(sql: Seq<char>)
    ensures
        tenant_screen::sql_objection(crate::text::lower(sql)) == tenant_screen::sql_objection(sql),
        tenant_screen::sql_objection(crate::text::upper(sql)) == tenant_screen::sql_objection(sql),
{
    assert(same_but_case(crate::text::lower(sql), sql));
    assert(same_but_case(crate::text::upper(sql), sql));
    lemma_case_split(crate::text::lower(sql), sql, 0, 0);
    lemma_case_split(crate::text::upper(sql), sql, 0, 0);
}

} // verus!
