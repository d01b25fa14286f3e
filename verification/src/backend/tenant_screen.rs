//! The SQL screen of a tenant session.
//!
//! Where every tenant has a database file of its own, all opened by one
//! process, `ATTACH` lets a session reach another tenant's file. `DETACH`,
//! `VACUUM INTO` and the `PRAGMA`s that name a path or open the schema for
//! edits are variations on it. A session that an authenticator bound to one
//! tenant is screened: these statements are refused before the engine sees
//! them. Other sessions are not screened.
//!
//! The screen is one scan that knows quotes and comments.
use crate::backend::{BackendError, Value};
use crate::text::{
    chars_of, first_at, is_word, leading_space, lower_chars, string_of, upper_chars,
};
use vstd::prelude::*;
use vstd::slice::slice_subrange;

verus! {

pub open spec fn is_letter(c: char) -> bool {
    'a' <= c <= 'z' || 'A' <= c <= 'Z'
}

/// A character of an identifier that is not quoted.
pub open spec fn is_identifier_char(c: char) -> bool {
    is_letter(c) || '0' <= c <= '9' || c == '_' || c == '$'
}

/// How many characters from `i` on are letters.
pub open spec fn letters_end(s: Seq<char>, i: int) -> int
    decreases s.len() - i,
{
    if i < s.len() && is_letter(s[i]) {
        letters_end(s, i + 1)
    } else {
        i
    }
}

/// The end of the unquoted identifier characters from `i` on.
pub open spec fn identifier_end(s: Seq<char>, i: int) -> int
    decreases s.len() - i,
{
    if i < s.len() && is_identifier_char(s[i]) {
        identifier_end(s, i + 1)
    } else {
        i
    }
}

/// The leading keyword, in upper case.
pub open spec fn keyword(s: Seq<char>) -> Seq<char> {
    crate::text::upper(s.take(letters_end(s, 0)))
}

/// What follows the leading keyword.
pub open spec fn after_keyword(s: Seq<char>) -> Seq<char> {
    s.skip(letters_end(s, 0))
}

pub proof fn lemma_letters_end(s: Seq<char>, i: int)
    requires
        0 <= i <= s.len(),
    ensures
        i <= letters_end(s, i) <= s.len(),
    decreases s.len() - i,
{
    if i < s.len() && is_letter(s[i]) {
        lemma_letters_end(s, i + 1);
    }
}

pub proof fn lemma_identifier_end(s: Seq<char>, i: int)
    requires
        0 <= i <= s.len(),
    ensures
        i <= identifier_end(s, i) <= s.len(),
    decreases s.len() - i,
{
    if i < s.len() && is_identifier_char(s[i]) {
        lemma_identifier_end(s, i + 1);
    }
}

pub proof fn lemma_trim_start_len(s: Seq<char>)
    ensures
        crate::text::trim_start(s).len() <= s.len(),
    decreases s.len(),
{
    if s.len() > 0 && crate::text::is_space(s[0]) {
        lemma_trim_start_len(s.skip(1));
    }
}

pub proof fn lemma_find_from_bounds(hay: Seq<char>, needle: Seq<char>, from: int)
    requires
        0 <= from,
    ensures
        crate::text::find_from(hay, needle, from) matches Some(at) ==> from <= at && at
            + needle.len() <= hay.len(),
    decreases hay.len() + 1 - from,
{
    if from + needle.len() <= hay.len() && !crate::text::stands_at(hay, needle, from) {
        lemma_find_from_bounds(hay, needle, from + 1);
    }
}

/// `s` without leading white space and comments; empty where a comment does
/// not end.
pub open spec fn strip_noise(s: Seq<char>) -> Seq<char>
    decreases s.len(),
{
    let t = crate::text::trim_start(s);
    if t.len() >= 2 && t[0] == '-' && t[1] == '-' {
        match crate::text::find(t.skip(2), seq!['\n']) {
            Some(at) => {
                proof {
                    lemma_trim_start_len(s);
                    lemma_find_from_bounds(t.skip(2), seq!['\n'], 0);
                }
                strip_noise(t.skip(2).skip(at + 1))
            },
            None => Seq::empty(),
        }
    } else if t.len() >= 2 && t[0] == '/' && t[1] == '*' {
        match crate::text::find(t.skip(2), seq!['*', '/']) {
            Some(at) => {
                proof {
                    lemma_trim_start_len(s);
                    lemma_find_from_bounds(t.skip(2), seq!['*', '/'], 0);
                }
                strip_noise(t.skip(2).skip(at + 2))
            },
            None => Seq::empty(),
        }
    } else {
        t
    }
}

pub proof fn lemma_strip_noise_len(s: Seq<char>)
    ensures
        strip_noise(s).len() <= s.len(),
    decreases s.len(),
{
    let t = crate::text::trim_start(s);
    lemma_trim_start_len(s);
    if t.len() >= 2 && t[0] == '-' && t[1] == '-' {
        lemma_find_from_bounds(t.skip(2), seq!['\n'], 0);
        if let Some(at) = crate::text::find(t.skip(2), seq!['\n']) {
            lemma_strip_noise_len(t.skip(2).skip(at + 1));
        }
    } else if t.len() >= 2 && t[0] == '/' && t[1] == '*' {
        lemma_find_from_bounds(t.skip(2), seq!['*', '/'], 0);
        if let Some(at) = crate::text::find(t.skip(2), seq!['*', '/']) {
            lemma_strip_noise_len(t.skip(2).skip(at + 2));
        }
    }
}

/// Drops leading white space and comments.
pub fn strip_leading_noise(stmt: &[char]) -> (r: &[char])
    ensures
        r@ == strip_noise(stmt@),
{
    let newline: [char; 1] = ['\n'];
    let close: [char; 2] = ['*', '/'];
    assert(newline@ =~= seq!['\n']);
    assert(close@ =~= seq!['*', '/']);
    let mut s: &[char] = stmt;
    loop
        invariant
            newline@ == seq!['\n'],
            close@ == seq!['*', '/'],
            strip_noise(stmt@) == strip_noise(s@),
        decreases s@.len(),
    {
        let space: usize = leading_space(s);
        let t = slice_subrange(s, space, s.len());
        assert(t@ == crate::text::trim_start(s@));
        if t.len() >= 2 && t[0] == '-' && t[1] == '-' {
            let rest = slice_subrange(t, 2, t.len());
            assert(rest@ == t@.skip(2));
            match first_at(rest, newline.as_slice()) {
                Some(at) => {
                    s = slice_subrange(rest, at + 1, rest.len());
                    assert(s@ == rest@.skip(at + 1));
                },
                None => {
                    return slice_subrange(stmt, 0, 0);
                },
            }
        } else if t.len() >= 2 && t[0] == '/' && t[1] == '*' {
            let rest = slice_subrange(t, 2, t.len());
            assert(rest@ == t@.skip(2));
            match first_at(rest, close.as_slice()) {
                Some(at) => {
                    s = slice_subrange(rest, at + 2, rest.len());
                    assert(s@ == rest@.skip(at + 2));
                },
                None => {
                    return slice_subrange(stmt, 0, 0);
                },
            }
        } else {
            return t;
        }
    }
}

/// Splits off the leading run of letters, in upper case.
pub fn leading_keyword(s: &[char]) -> (r: (Vec<char>, &[char]))
    ensures
        r.0@ == keyword(s@),
        r.1@ == after_keyword(s@),
{
    let mut len: usize = 0;
    while len < s.len() && (('a' <= s[len] && s[len] <= 'z') || ('A' <= s[len] && s[len] <= 'Z'))
        invariant
            len <= s.len(),
            letters_end(s@, 0) == letters_end(s@, len as int),
        decreases s.len() - len,
    {
        len += 1;
    }
    let head = slice_subrange(s, 0, len);
    assert(head@ == s@.take(len as int));
    let tail = slice_subrange(s, len, s.len());
    assert(tail@ == s@.skip(len as int));
    (upper_chars(head), tail)
}

/// What follows a keyword, noise aside, is shorter than what it leads.
pub proof fn lemma_after_keyword_len(s: Seq<char>)
    ensures
        strip_noise(after_keyword(s)).len() <= s.len(),
        keyword(s) == "EXPLAIN"@ ==> strip_noise(after_keyword(s)).len() < s.len(),
{
    lemma_letters_end(s, 0);
    lemma_strip_noise_len(after_keyword(s));
    reveal_strlit("EXPLAIN");
    assert(keyword(s).len() == letters_end(s, 0));
}

/// `s`, which starts with no noise, without its `EXPLAIN` and `EXPLAIN QUERY
/// PLAN` prefixes; `None` where `EXPLAIN QUERY` is followed by something else.
pub open spec fn strip_explain(s: Seq<char>) -> Option<Seq<char>>
    decreases s.len(),
{
    if keyword(s) != "EXPLAIN"@ {
        Some(s)
    } else {
        let rest = strip_noise(after_keyword(s));
        proof {
            lemma_after_keyword_len(s);
            lemma_after_keyword_len(rest);
            lemma_after_keyword_len(strip_noise(after_keyword(rest)));
        }
        if keyword(rest) != "QUERY"@ {
            strip_explain(rest)
        } else {
            let query = strip_noise(after_keyword(rest));
            if keyword(query) != "PLAN"@ {
                None
            } else {
                strip_explain(strip_noise(after_keyword(query)))
            }
        }
    }
}

/// Sees through leading `EXPLAIN` and `EXPLAIN QUERY PLAN` prefixes.
pub fn strip_explain_prefixes(stmt: &[char]) -> (r: Result<&[char], String>)
    ensures
        match r {
            Ok(rest) => strip_explain(strip_noise(stmt@)) == Some(rest@),
            Err(e) => strip_explain(strip_noise(stmt@)) is None && e@ == "EXPLAIN"@,
        },
{
    let mut rest = strip_leading_noise(stmt);
    loop
        invariant
            strip_explain(strip_noise(stmt@)) == strip_explain(rest@),
        decreases rest@.len(),
    {
        let (word, after) = leading_keyword(rest);
        if !is_word(word.as_slice(), "EXPLAIN") {
            return Ok(rest);
        }
        let ghost before = rest@;
        rest = strip_leading_noise(after);
        proof {
            lemma_after_keyword_len(before);
        }
        let (next, after_next) = leading_keyword(rest);
        if is_word(next.as_slice(), "QUERY") {
            let after_query = strip_leading_noise(after_next);
            let (plan, after_plan) = leading_keyword(after_query);
            if !is_word(plan.as_slice(), "PLAN") {
                return Err("EXPLAIN".to_owned());
            }
            proof {
                lemma_after_keyword_len(rest@);
                lemma_after_keyword_len(after_query@);
            }
            rest = strip_leading_noise(after_plan);
        }
    }
}

/// What closes a quoted identifier that opens with `open`.
pub open spec fn closing(open: char) -> Option<char> {
    if open == '"' || open == '`' || open == '\'' {
        Some(open)
    } else if open == '[' {
        Some(']')
    } else {
        None
    }
}

/// Where the quoted text that goes on at `i` is closed. A doubled delimiter
/// is an escaped one, except in brackets.
pub open spec fn closed_at(s: Seq<char>, i: int, close: char) -> Option<int>
    decreases s.len() - i,
{
    if i >= s.len() {
        None
    } else if s[i] != close {
        closed_at(s, i + 1, close)
    } else if close != ']' && i + 1 < s.len() && s[i + 1] == close {
        closed_at(s, i + 2, close)
    } else {
        Some(i)
    }
}

pub proof fn lemma_closed_at(s: Seq<char>, i: int, close: char)
    requires
        0 <= i,
    ensures
        closed_at(s, i, close) matches Some(at) ==> i <= at < s.len(),
    decreases s.len() - i,
{
    if i < s.len() {
        if s[i] != close {
            lemma_closed_at(s, i + 1, close);
        } else if close != ']' && i + 1 < s.len() && s[i + 1] == close {
            lemma_closed_at(s, i + 2, close);
        }
    }
}

/// `s` with every doubled `quote` made single, from left to right.
pub open spec fn undoubled(s: Seq<char>, quote: char) -> Seq<char>
    decreases s.len(),
{
    if s.len() == 0 {
        s
    } else if s.len() >= 2 && s[0] == quote && s[1] == quote {
        seq![quote] + undoubled(s.skip(2), quote)
    } else {
        seq![s[0]] + undoubled(s.skip(1), quote)
    }
}

/// The identifier at the front of `s`, unquoted, and what follows it.
pub open spec fn identifier(s: Seq<char>) -> Option<(Seq<char>, Seq<char>)> {
    if s.len() == 0 {
        None
    } else {
        match closing(s[0]) {
            None => {
                let len = identifier_end(s, 0);
                if len == 0 {
                    None
                } else {
                    Some((s.take(len), s.skip(len)))
                }
            },
            Some(close) => match closed_at(s, 1, close) {
                None => None,
                Some(at) => Some(
                    (
                        if close == ']' {
                            s.subrange(1, at)
                        } else {
                            undoubled(s.subrange(1, at), close)
                        },
                        s.skip(at + 1),
                    ),
                ),
            },
        }
    }
}

fn without_doubles(s: &[char], quote: char) -> (r: Vec<char>)
    ensures
        r@ == undoubled(s@, quote),
{
    let mut r: Vec<char> = Vec::new();
    let mut i: usize = 0;
    assert(s@.skip(0) == s@);
    while i < s.len()
        invariant
            i <= s.len(),
            undoubled(s@, quote) == r@ + undoubled(s@.skip(i as int), quote),
        decreases s.len() - i,
    {
        let ghost t = s@.skip(i as int);
        let ghost before = r@;
        assert(t[0] == s@[i as int]);
        if s[i] == quote && i + 1 < s.len() && s[i + 1] == quote {
            assert(t[1] == s@[i + 1]);
            assert(t.skip(2) == s@.skip(i + 2));
            r.push(quote);
            i += 2;
            assert(r@ + undoubled(s@.skip(i as int), quote) == before + (seq![quote] + undoubled(
                s@.skip(i as int),
                quote,
            )));
        } else {
            assert(t.len() >= 2 ==> t[1] == s@[i + 1]);
            assert(t.skip(1) == s@.skip(i + 1));
            let ghost c = s@[i as int];
            r.push(s[i]);
            i += 1;
            assert(r@ + undoubled(s@.skip(i as int), quote) == before + (seq![c] + undoubled(
                s@.skip(i as int),
                quote,
            )));
        }
    }
    assert(s@.skip(i as int).len() == 0);
    assert(r@ == undoubled(s@, quote));
    r
}

/// Splits one identifier off the front of `s`, with its text unquoted.
pub fn take_identifier(s: &[char]) -> (r: Option<(Vec<char>, &[char])>)
    ensures
        match r {
            Some((name, rest)) => identifier(s@) == Some((name@, rest@)),
            None => identifier(s@) is None,
        },
{
    if s.len() == 0 {
        return None;
    }
    let open: char = s[0];
    let close: char = if open == '"' || open == '`' || open == '\'' {
        open
    } else if open == '[' {
        ']'
    } else {
        let mut len: usize = 0;
        while len < s.len() && (('a' <= s[len] && s[len] <= 'z') || ('A' <= s[len] && s[len] <= 'Z')
            || ('0' <= s[len] && s[len] <= '9') || s[len] == '_' || s[len] == '$')
            invariant
                len <= s.len(),
                identifier_end(s@, 0) == identifier_end(s@, len as int),
            decreases s.len() - len,
        {
            len += 1;
        }
        if len == 0 {
            return None;
        }
        let name = slice_subrange(s, 0, len);
        let rest = slice_subrange(s, len, s.len());
        assert(name@ == s@.take(len as int));
        assert(rest@ == s@.skip(len as int));
        let mut owned: Vec<char> = Vec::new();
        owned.extend_from_slice(name);
        assert(owned@ == name@);
        return Some((owned, rest));
    };
    let mut i: usize = 1;
    while i < s.len()
        invariant
            1 <= i,
            s@.len() > 0,
            closing(s@[0]) == Some(close),
            closed_at(s@, 1, close) == closed_at(s@, i as int, close),
        decreases s.len() - i,
    {
        if s[i] == close {
            if close != ']' && i + 1 < s.len() && s[i + 1] == close {
                i += 2;
                continue;
            }
            let inner = slice_subrange(s, 1, i);
            let rest = slice_subrange(s, i + 1, s.len());
            assert(rest@ == s@.skip(i + 1));
            let name: Vec<char> = if close == ']' {
                let mut owned: Vec<char> = Vec::new();
                owned.extend_from_slice(inner);
                assert(owned@ == inner@);
                owned
            } else {
                without_doubles(inner, close)
            };
            return Some((name, rest));
        }
        i += 1;
    }
    None
}

/// The dot-separated identifiers at the front of `s`, in lower case.
pub open spec fn name_parts(s: Seq<char>) -> Seq<Seq<char>>
    decreases s.len(),
{
    match identifier(s) {
        None => Seq::empty(),
        Some((name, after)) => {
            let next = strip_noise(after);
            proof {
                lemma_identifier_shorter(s);
                lemma_strip_noise_len(after);
                lemma_strip_noise_len(next.skip(1));
            }
            seq![crate::text::lower(name)] + if next.len() > 0 && next[0] == '.' {
                name_parts(strip_noise(next.skip(1)))
            } else {
                Seq::empty()
            }
        },
    }
}

pub proof fn lemma_identifier_shorter(s: Seq<char>)
    ensures
        identifier(s) matches Some((name, after)) ==> after.len() < s.len(),
{
    if s.len() > 0 {
        lemma_identifier_end(s, 0);
        if let Some(close) = closing(s[0]) {
            lemma_closed_at(s, 1, close);
        }
    }
}

/// The views of the parts.
pub open spec fn part_views(parts: Seq<Vec<char>>) -> Seq<Seq<char>> {
    Seq::new(parts.len(), |i: int| parts[i]@)
}

/// The dot-separated identifiers of a `PRAGMA`'s target, in lower case.
pub fn pragma_name_parts(rest: &[char]) -> (r: Vec<Vec<char>>)
    ensures
        part_views(r@) == name_parts(strip_noise(rest@)),
{
    let mut parts: Vec<Vec<char>> = Vec::new();
    let mut s = strip_leading_noise(rest);
    assert(part_views(parts@) + name_parts(s@) == name_parts(s@));
    loop
        invariant
            name_parts(strip_noise(rest@)) == part_views(parts@) + name_parts(s@),
        decreases s@.len(),
    {
        let ghost here = s@;
        let ghost before = part_views(parts@);
        match take_identifier(s) {
            None => {
                assert(before + name_parts(here) == before);
                return parts;
            },
            Some((name, after)) => {
                proof {
                    lemma_identifier_shorter(here);
                    lemma_strip_noise_len(after@);
                }
                let part = lower_chars(name.as_slice());
                parts.push(part);
                assert(part_views(parts@) == before.push(crate::text::lower(name@)));
                let next = strip_leading_noise(after);
                if next.len() > 0 && next[0] == '.' {
                    let tail = slice_subrange(next, 1, next.len());
                    assert(tail@ == next@.skip(1));
                    proof {
                        lemma_strip_noise_len(tail@);
                    }
                    s = strip_leading_noise(tail);
                    assert(before + (seq![crate::text::lower(name@)] + name_parts(s@))
                        == part_views(parts@) + name_parts(s@));
                } else {
                    assert(before + (seq![crate::text::lower(name@)] + Seq::empty())
                        == part_views(parts@));
                    return parts;
                }
            },
        }
    }
}

pub open spec fn forbidden_keyword(word: Seq<char>) -> bool {
    word == "ATTACH"@ || word == "DETACH"@
}

pub open spec fn forbidden_pragma(name: Seq<char>) -> bool {
    ||| name == "writable_schema"@
    ||| name == "temp_store_directory"@
    ||| name == "data_store_directory"@
}

/// The first forbidden one among the parts of a `PRAGMA`'s target.
pub open spec fn first_forbidden(parts: Seq<Seq<char>>) -> Option<Seq<char>>
    decreases parts.len(),
{
    if parts.len() == 0 {
        None
    } else if forbidden_pragma(parts[0]) {
        Some(parts[0])
    } else {
        first_forbidden(parts.skip(1))
    }
}

/// What is objected to in one statement, if anything.
pub open spec fn objection(stmt: Seq<char>) -> Option<Seq<char>> {
    match strip_explain(strip_noise(stmt)) {
        None => Some("EXPLAIN"@),
        Some(s) => {
            let word = keyword(s);
            let rest = after_keyword(s);
            if forbidden_keyword(word) {
                Some(word)
            } else if word == "VACUUM"@ && strip_noise(rest).len() > 0 {
                Some("VACUUM INTO"@)
            } else if word == "PRAGMA"@ {
                match first_forbidden(name_parts(strip_noise(rest))) {
                    Some(name) => Some("PRAGMA "@ + name),
                    None => None,
                }
            } else {
                None
            }
        },
    }
}

/// `r` refuses exactly what is objected to.
pub open spec fn agrees(r: Result<(), String>, objection: Option<Seq<char>>) -> bool {
    match r {
        Ok(()) => objection is None,
        Err(e) => objection == Some(e@),
    }
}

/// Refuses one statement whose leading verb is forbidden.
pub fn check_statement(stmt: &[char]) -> (r: Result<(), String>)
    ensures
        agrees(r, objection(stmt@)),
{
    let trimmed = match strip_explain_prefixes(stmt) {
        Ok(s) => s,
        Err(e) => {
            return Err(e);
        },
    };
    let (word, rest) = leading_keyword(trimmed);
    if is_word(word.as_slice(), "ATTACH") || is_word(word.as_slice(), "DETACH") {
        return Err(string_of(word.as_slice()));
    }
    if is_word(word.as_slice(), "VACUUM") {
        if strip_leading_noise(rest).len() > 0 {
            return Err("VACUUM INTO".to_owned());
        }
        proof {
            reveal_strlit("VACUUM");
            reveal_strlit("PRAGMA");
            assert("VACUUM"@[0] != "PRAGMA"@[0]);
        }
    }
    if is_word(word.as_slice(), "PRAGMA") {
        let parts = pragma_name_parts(rest);
        let ghost all = part_views(parts@);
        let mut i: usize = 0;
        assert(all.skip(0) == all);
        while i < parts.len()
            invariant
                i <= parts.len(),
                all == part_views(parts@),
                first_forbidden(all) == first_forbidden(all.skip(i as int)),
                strip_explain(strip_noise(stmt@)) == Some(trimmed@),
                word@ == keyword(trimmed@),
                word@ == "PRAGMA"@,
                !forbidden_keyword(word@),
                word@ != "VACUUM"@,
                rest@ == after_keyword(trimmed@),
                all == name_parts(strip_noise(rest@)),
            decreases parts.len() - i,
        {
            let part: &Vec<char> = &parts[i];
            assert(all.skip(i as int)[0] == part@);
            if is_word(part.as_slice(), "writable_schema") || is_word(
                part.as_slice(),
                "temp_store_directory",
            ) || is_word(part.as_slice(), "data_store_directory") {
                let mut offending: String = "PRAGMA ".to_owned();
                let name: String = string_of(part.as_slice());
                offending.append(name.as_str());
                return Err(offending);
            }
            assert(all.skip(i as int).skip(1) == all.skip(i + 1));
            i += 1;
        }
        assert(all.skip(i as int).len() == 0);
    }
    Ok(())
}

/// The position after the quote that closes the text that goes on at `i`. A
/// doubled quote is an escaped one.
pub open spec fn quote_end(s: Seq<char>, i: int, quote: char) -> Option<int>
    decreases s.len() - i,
{
    if i >= s.len() {
        None
    } else if s[i] != quote {
        quote_end(s, i + 1, quote)
    } else if i + 1 < s.len() && s[i + 1] == quote {
        quote_end(s, i + 2, quote)
    } else {
        Some(i + 1)
    }
}

/// The position of the line's end, from `i` on.
pub open spec fn line_end(s: Seq<char>, i: int) -> int
    decreases s.len() - i,
{
    if i < s.len() && s[i] != '\n' {
        line_end(s, i + 1)
    } else {
        i
    }
}

/// The position after the end of the block comment that goes on at `i`.
pub open spec fn block_end(s: Seq<char>, i: int) -> Option<int>
    decreases s.len() - i,
{
    if i + 1 >= s.len() {
        None
    } else if s[i] == '*' && s[i + 1] == '/' {
        Some(i + 2)
    } else {
        block_end(s, i + 1)
    }
}

/// The position after the literal, quoted name, comment or other character
/// that begins at `i`; `None` where it does not end.
pub open spec fn element_end(s: Seq<char>, i: int) -> Option<int> {
    if s[i] == '\'' || s[i] == '"' || s[i] == '`' {
        quote_end(s, i + 1, s[i])
    } else if s[i] == '-' && i + 1 < s.len() && s[i + 1] == '-' {
        Some(line_end(s, i + 2))
    } else if s[i] == '/' && i + 1 < s.len() && s[i + 1] == '*' {
        block_end(s, i + 2)
    } else {
        Some(i + 1)
    }
}

proof fn lemma_quote_end(s: Seq<char>, i: int, quote: char)
    requires
        0 <= i,
    ensures
        quote_end(s, i, quote) matches Some(e) ==> i < e <= s.len(),
    decreases s.len() - i,
{
    if i < s.len() {
        if s[i] != quote {
            lemma_quote_end(s, i + 1, quote);
        } else if i + 1 < s.len() && s[i + 1] == quote {
            lemma_quote_end(s, i + 2, quote);
        }
    }
}

proof fn lemma_line_end(s: Seq<char>, i: int)
    requires
        0 <= i <= s.len(),
    ensures
        i <= line_end(s, i) <= s.len(),
    decreases s.len() - i,
{
    if i < s.len() && s[i] != '\n' {
        lemma_line_end(s, i + 1);
    }
}

proof fn lemma_block_end(s: Seq<char>, i: int)
    requires
        0 <= i,
    ensures
        block_end(s, i) matches Some(e) ==> i < e <= s.len(),
    decreases s.len() - i,
{
    if i + 1 < s.len() && !(s[i] == '*' && s[i + 1] == '/') {
        lemma_block_end(s, i + 1);
    }
}

pub proof fn lemma_element_end(s: Seq<char>, i: int)
    requires
        0 <= i < s.len(),
    ensures
        element_end(s, i) matches Some(e) ==> i < e <= s.len(),
{
    lemma_quote_end(s, i + 1, s[i]);
    if i + 2 <= s.len() {
        lemma_line_end(s, i + 2);
    }
    lemma_block_end(s, i + 2);
}

/// The statements of a SQL text, and whether every quote and comment ends.
/// Where one does not, the statements are those before it.
pub struct Split {
    pub statements: Seq<Seq<char>>,
    pub whole: bool,
}

/// Splits `s` from `i` on, with the statement at hand begun at `start`.
pub open spec fn split_from(s: Seq<char>, start: int, i: int) -> Split
    decreases s.len() - i,
{
    if i < 0 || i >= s.len() {
        Split { statements: seq![s.subrange(start, s.len() as int)], whole: true }
    } else if s[i] == ';' {
        let after = split_from(s, i + 1, i + 1);
        Split {
            statements: seq![s.subrange(start, i)] + after.statements,
            whole: after.whole,
        }
    } else {
        match element_end(s, i) {
            None => Split { statements: Seq::empty(), whole: false },
            Some(e) => {
                proof {
                    lemma_element_end(s, i);
                }
                split_from(s, start, e)
            },
        }
    }
}

/// The statements of `sql`.
pub open spec fn split(sql: Seq<char>) -> Split {
    split_from(sql, 0, 0)
}

/// What is objected to in the first statement that is objected to.
pub open spec fn first_objection(statements: Seq<Seq<char>>) -> Option<Seq<char>>
    decreases statements.len(),
{
    if statements.len() == 0 {
        None
    } else {
        match objection(statements[0]) {
            Some(o) => Some(o),
            None => first_objection(statements.skip(1)),
        }
    }
}

pub open spec fn split_objection(split: Split) -> Option<Seq<char>> {
    match first_objection(split.statements) {
        Some(o) => Some(o),
        None => if split.whole {
            None
        } else {
            Some("malformed SQL"@)
        },
    }
}

/// What is objected to in a SQL text, if anything.
pub open spec fn sql_objection(sql: Seq<char>) -> Option<Seq<char>> {
    split_objection(split(sql))
}

/// Screens a SQL text of any number of statements. Text in literals, names in
/// quotes or backticks, and comments is data. Brackets are not quotes here: a
/// semicolon in a bracketed name ends a statement. A quote or block comment
/// that does not end is refused too.
pub fn screen_sql(sql: &str) -> (r: Result<(), String>)
    ensures
        agrees(r, sql_objection(sql@)),
{
    let chars = chars_of(sql);
    let s: &[char] = chars.as_slice();
    let len: usize = s.len();
    let mut start: usize = 0;
    let mut i: usize = 0;
    while i < len
        invariant
            s@ == sql@,
            len == s@.len(),
            start <= i <= len,
            sql_objection(sql@) == split_objection(split_from(s@, start as int, i as int)),
        decreases len - i,
    {
        let c: char = s[i];
        let ghost at = i as int;
        proof {
            lemma_element_end(s@, at);
        }
        if c == '\'' || c == '"' || c == '`' {
            i += 1;
            let mut open = true;
            while open
                invariant
                    s@ == sql@,
                    len == s@.len(),
                    i <= len,
                    open ==> quote_end(s@, at + 1, c) == quote_end(s@, i as int, c),
                    !open ==> quote_end(s@, at + 1, c) == Some(i as int),
                    quote_end(s@, at + 1, c) is None ==> sql_objection(sql@)
                        == Some("malformed SQL"@),
                decreases len - i,
            {
                if i >= len {
                    return Err("malformed SQL".to_owned());
                }
                if s[i] == c {
                    if i + 1 < len && s[i + 1] == c {
                        i += 2;
                    } else {
                        i += 1;
                        open = false;
                    }
                } else {
                    i += 1;
                }
            }
        } else if c == '-' && i + 1 < len && s[i + 1] == '-' {
            i += 2;
            while i < len && s[i] != '\n'
                invariant
                    len == s@.len(),
                    i <= len,
                    line_end(s@, at + 2) == line_end(s@, i as int),
                decreases len - i,
            {
                i += 1;
            }
        } else if c == '/' && i + 1 < len && s[i + 1] == '*' {
            i += 2;
            let mut open = true;
            while open
                invariant
                    s@ == sql@,
                    len == s@.len(),
                    i <= len,
                    open ==> block_end(s@, at + 2) == block_end(s@, i as int),
                    !open ==> block_end(s@, at + 2) == Some(i as int),
                    block_end(s@, at + 2) is None ==> sql_objection(sql@)
                        == Some("malformed SQL"@),
                decreases len - i,
            {
                if len - i <= 1 {
                    return Err("malformed SQL".to_owned());
                }
                if s[i] == '*' && s[i + 1] == '/' {
                    i += 2;
                    open = false;
                } else {
                    i += 1;
                }
            }
        } else if c == ';' {
            let stmt = slice_subrange(s, start, i);
            proof {
                let after = split_from(s@, at + 1, at + 1);
                let here = split_from(s@, start as int, at);
                assert(here.statements[0] == stmt@);
                assert(here.statements.skip(1) == after.statements);
            }
            check_statement(stmt)?;
            i += 1;
            start = i;
        } else {
            i += 1;
        }
    }
    let stmt = slice_subrange(s, start, len);
    proof {
        let here = split_from(s@, start as int, i as int);
        assert(here.statements[0] == stmt@);
        assert(here.statements.skip(1) == Seq::<Seq<char>>::empty());
        assert(first_objection(Seq::empty()) is None);
    }
    check_statement(stmt)
}

proof fn lemma_first_objection(statements: Seq<Seq<char>>)
    ensures
        first_objection(statements) is None <==> forall|i: int|
            0 <= i < statements.len() ==> objection(#[trigger] statements[i]) is None,
    decreases statements.len(),
{
    if statements.len() > 0 {
        let tail = statements.skip(1);
        lemma_first_objection(tail);
        if objection(statements[0]) is None {
            if first_objection(tail) is None {
                assert forall|i: int| 0 <= i < statements.len() implies objection(
                    #[trigger] statements[i],
                ) is None by {
                    if i > 0 {
                        assert(tail[i - 1] == statements[i]);
                    }
                }
            } else {
                let i = choose|i: int|
                    0 <= i < tail.len() && objection(#[trigger] tail[i]) is Some;
                assert(statements[i + 1] == tail[i]);
            }
        }
    }
}

/// A text passes exactly where every quote and comment in it ends and nothing
/// is objected to in any of its statements.
pub proof fn law_every_statement_is_screened(sql: Seq<char>)
    ensures
        sql_objection(sql) is None <==> {
            &&& split(sql).whole
            &&& forall|i: int|
                0 <= i < split(sql).statements.len() ==> objection(
                    #[trigger] split(sql).statements[i],
                ) is None
        },
{
    lemma_first_objection(split(sql).statements);
}

/// Only the leading verb decides: a statement with any other verb passes,
/// whatever its literals and comments say.
pub proof fn law_other_verbs_pass(stmt: Seq<char>)
    requires
        ({
            let verb = keyword(strip_noise(stmt));
            &&& verb != "EXPLAIN"@
            &&& verb != "ATTACH"@
            &&& verb != "DETACH"@
            &&& verb != "VACUUM"@
            &&& verb != "PRAGMA"@
        }),
    ensures
        objection(stmt) is None,
{
}

/// `ATTACH` and `DETACH` are refused by name, whatever follows and in
/// whatever case they are written.
pub proof fn law_cross_database_verbs_are_refused(stmt: Seq<char>)
    requires
        forbidden_keyword(keyword(strip_noise(stmt))),
    ensures
        objection(stmt) == Some(keyword(strip_noise(stmt))),
{
    let verb = keyword(strip_noise(stmt));
    reveal_strlit("EXPLAIN");
    reveal_strlit("ATTACH");
    reveal_strlit("DETACH");
    assert("EXPLAIN"@.len() != "ATTACH"@.len());
    assert("EXPLAIN"@.len() != "DETACH"@.len());
    assert(verb != "EXPLAIN"@);
}

proof fn lemma_trim_start_front(s: Seq<char>)
    ensures
        ({
            let t = crate::text::trim_start(s);
            t.len() == 0 || !crate::text::is_space(t[0])
        }),
    decreases s.len(),
{
    if s.len() > 0 && crate::text::is_space(s[0]) {
        lemma_trim_start_front(s.skip(1));
    }
}

/// What is left of noise-free text has no noise in front.
pub proof fn law_strip_noise_is_final(s: Seq<char>)
    ensures
        strip_noise(strip_noise(s)) == strip_noise(s),
    decreases s.len(),
{
    let t = crate::text::trim_start(s);
    lemma_trim_start_len(s);
    lemma_trim_start_front(s);
    if t.len() >= 2 && t[0] == '-' && t[1] == '-' {
        lemma_find_from_bounds(t.skip(2), seq!['\n'], 0);
        match crate::text::find(t.skip(2), seq!['\n']) {
            Some(at) => law_strip_noise_is_final(t.skip(2).skip(at + 1)),
            None => {
                assert(crate::text::trim_start(Seq::<char>::empty()) == Seq::<char>::empty());
            },
        }
    } else if t.len() >= 2 && t[0] == '/' && t[1] == '*' {
        lemma_find_from_bounds(t.skip(2), seq!['*', '/'], 0);
        match crate::text::find(t.skip(2), seq!['*', '/']) {
            Some(at) => law_strip_noise_is_final(t.skip(2).skip(at + 2)),
            None => {
                assert(crate::text::trim_start(Seq::<char>::empty()) == Seq::<char>::empty());
            },
        }
    } else {
        assert(crate::text::trim_start(t) == t);
    }
}

/// An `EXPLAIN` in front hides nothing: the statement that it wraps is
/// screened as it would be alone.
pub proof fn law_explain_hides_nothing(stmt: Seq<char>)
    requires
        keyword(strip_noise(stmt)) == "EXPLAIN"@,
    ensures
        ({
            let wrapped = strip_noise(after_keyword(strip_noise(stmt)));
            let query = strip_noise(after_keyword(wrapped));
            if keyword(wrapped) != "QUERY"@ {
                objection(stmt) == objection(wrapped)
            } else if keyword(query) != "PLAN"@ {
                objection(stmt) == Some("EXPLAIN"@)
            } else {
                objection(stmt) == objection(after_keyword(query))
            }
        }),
{
    law_strip_noise_is_final(after_keyword(strip_noise(stmt)));
}

/// The error that a refused statement is answered with.
pub fn refuse(offending: &str) -> (r: BackendError)
    ensures
        r matches BackendError::Sqlite(m) && m@ == refusal_text(offending@),
{
    let mut m: String = "statement type `".to_owned();
    m.append(offending);
    m.append("` is not permitted on a tenant session");
    BackendError::Sqlite(m)
}

pub open spec fn refusal_text(offending: Seq<char>) -> Seq<char> {
    "statement type `"@ + offending + "` is not permitted on a tenant session"@
}

/// A session whose statements are screened before the engine sees them.
#[derive(Debug)]
pub struct ScreenedConn<C> {
    pub inner: C,
}

/// Wraps a session so that every statement is screened.
pub fn screened<C>(inner: C) -> (r: ScreenedConn<C>)
    ensures
        r.inner == inner,
{
    ScreenedConn { inner }
}

impl<C> ScreenedConn<C> {
    /// The session underneath, for a statement that passes the screen; the
    /// refusal, for one that does not.
    pub fn passing(&self, sql: &str) -> (r: Result<&C, BackendError>)
        ensures
            match sql_objection(sql@) {
                None => r == Ok::<&C, BackendError>(&self.inner),
                Some(o) => r matches Err(BackendError::Sqlite(m)) && m@ == refusal_text(o),
            },
    {
        match screen_sql(sql) {
            Ok(()) => Ok(&self.inner),
            Err(offending) => Err(refuse(offending.as_str())),
        }
    }
}

/// A call that the session underneath gets, as it was made. Its result is
/// the caller's.
#[derive(Debug)]
pub enum Passed<'a, C> {
    Query { conn: &'a C, sql: &'a str, params: &'a [Value] },
    Execute { conn: &'a C, sql: &'a str, params: &'a [Value] },
    DescribeColumns { conn: &'a C, sql: &'a str },
}

/// `r` is the answer to a call with the text `sql`: the call itself, where the
/// text passes the screen, and otherwise the refusal.
pub open spec fn is_screened<'a, C>(
    r: Result<Passed<'a, C>, BackendError>,
    sql: Seq<char>,
    call: Passed<'a, C>,
) -> bool {
    match sql_objection(sql) {
        None => r == Ok::<Passed<'a, C>, BackendError>(call),
        Some(o) => r matches Err(BackendError::Sqlite(m)) && m@ == refusal_text(o),
    }
}

impl<C> ScreenedConn<C> {
    /// Screens a query.
    pub fn query<'a>(&'a self, sql: &'a str, params: &'a [Value]) -> (r: Result<
        Passed<'a, C>,
        BackendError,
    >)
        ensures
            is_screened(r, sql@, Passed::Query { conn: &self.inner, sql, params }),
    {
        match self.passing(sql) {
            Ok(conn) => Ok(Passed::Query { conn, sql, params }),
            Err(e) => Err(e),
        }
    }

    /// Screens a statement that is run for its effect.
    pub fn execute<'a>(&'a self, sql: &'a str, params: &'a [Value]) -> (r: Result<
        Passed<'a, C>,
        BackendError,
    >)
        ensures
            is_screened(r, sql@, Passed::Execute { conn: &self.inner, sql, params }),
    {
        match self.passing(sql) {
            Ok(conn) => Ok(Passed::Execute { conn, sql, params }),
            Err(e) => Err(e),
        }
    }

    /// Screens a query that is only described.
    pub fn describe_columns<'a>(&'a self, sql: &'a str) -> (r: Result<Passed<'a, C>, BackendError>)
        ensures
            is_screened(r, sql@, Passed::DescribeColumns { conn: &self.inner, sql }),
    {
        match self.passing(sql) {
            Ok(conn) => Ok(Passed::DescribeColumns { conn, sql }),
            Err(e) => Err(e),
        }
    }
}

/// A backend every session of which is screened.
#[derive(Debug)]
pub struct TenantScreened<B> {
    pub inner: B,
}

impl<B> TenantScreened<B> {
    pub fn new(inner: B) -> (r: TenantScreened<B>)
        ensures
            r.inner == inner,
    {
        TenantScreened { inner }
    }
}

} // verus!
