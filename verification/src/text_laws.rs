//! What holds of text, whatever it says: case, search, trimming and numbers.
use vstd::prelude::*;

verus! {

/// The word stands at the front of the text, in whatever case, behind `n`
/// characters that are all white space.
pub open spec fn leads(s: Seq<char>, n: int, word: Seq<char>) -> bool {
    &&& 0 <= n
    &&& n + word.len() <= s.len()
    &&& forall|i: int| 0 <= i < n ==> crate::text::is_space(#[trigger] s[i])
    &&& forall|i: int|
        0 <= i < word.len() ==> crate::text::ascii_upper(s[n + i]) == #[trigger] word[i]
}

/// A word of capital letters.
pub open spec fn is_capital_word(word: Seq<char>) -> bool {
    &&& word.len() > 0
    &&& forall|i: int| 0 <= i < word.len() ==> 'A' <= #[trigger] word[i] <= 'Z'
}

/// The text holds the word, in whatever case.
pub open spec fn holds_word(s: Seq<char>, word: Seq<char>) -> bool {
    exists|at: int|
        0 <= at && at + word.len() <= s.len() && crate::text::upper(
            #[trigger] s.subrange(at, at + word.len()),
        ) == word
}

/// Capital and small letters are told by the alphabet: each small letter
/// becomes the capital at its place, each capital the small one, and no other
/// character changes.
pub proof fn law_case_follows_the_alphabet(c: char, k: int)
    ensures
        0 <= k < 26 && c == "abcdefghijklmnopqrstuvwxyz"@[k] ==> crate::text::ascii_upper(c)
            == "ABCDEFGHIJKLMNOPQRSTUVWXYZ"@[k],
        0 <= k < 26 && c == "ABCDEFGHIJKLMNOPQRSTUVWXYZ"@[k] ==> crate::text::ascii_lower(c)
            == "abcdefghijklmnopqrstuvwxyz"@[k],
        !"abcdefghijklmnopqrstuvwxyz"@.contains(c) ==> crate::text::ascii_upper(c) == c,
        !"ABCDEFGHIJKLMNOPQRSTUVWXYZ"@.contains(c) ==> crate::text::ascii_lower(c) == c,
{
    reveal_strlit("abcdefghijklmnopqrstuvwxyz");
    reveal_strlit("ABCDEFGHIJKLMNOPQRSTUVWXYZ");
    let small = "abcdefghijklmnopqrstuvwxyz"@;
    let capital = "ABCDEFGHIJKLMNOPQRSTUVWXYZ"@;
    if 'a' <= c <= 'z' {
        assert(small[c as int - 97] == c);
    }
    if 'A' <= c <= 'Z' {
        assert(capital[c as int - 65] == c);
    }
}

/// Changing the case changes each character on its own, and their number and
/// order not at all.
pub proof fn law_case_is_letter_by_letter(a: Seq<char>, b: Seq<char>)
    ensures
        crate::text::upper(a + b) == crate::text::upper(a) + crate::text::upper(b),
        crate::text::lower(a + b) == crate::text::lower(a) + crate::text::lower(b),
        crate::text::upper(a).len() == a.len(),
        crate::text::lower(a).len() == a.len(),
        forall|i: int|
            0 <= i < a.len() ==> #[trigger] crate::text::upper(a)[i] == crate::text::ascii_upper(
                a[i],
            ),
        forall|i: int|
            0 <= i < a.len() ==> #[trigger] crate::text::lower(a)[i] == crate::text::ascii_lower(
                a[i],
            ),
{
    assert(crate::text::upper(a + b) =~= crate::text::upper(a) + crate::text::upper(b));
    assert(crate::text::lower(a + b) =~= crate::text::lower(a) + crate::text::lower(b));
}

/// A text occurs in every text that is something, the text, and something;
/// and in no other.
pub proof fn law_occurs_between(hay: Seq<char>, needle: Seq<char>)
    ensures
        crate::text::occurs(hay, needle) <==> exists|before: Seq<char>, after: Seq<char>|
            #[trigger] (before + needle + after) == hay,
{
    if crate::text::occurs(hay, needle) {
        let at = choose|at: int| crate::text::stands_at(hay, needle, at);
        let before = hay.take(at);
        let after = hay.skip(at + needle.len());
        assert(before + needle + after =~= hay) by {
            assert(hay.subrange(at, at + needle.len()) == needle);
            assert forall|i: int| 0 <= i < needle.len() implies needle[i] == hay[at + i] by {
                assert(hay.subrange(at, at + needle.len())[i] == hay[at + i]);
            }
        }
    }
    if exists|before: Seq<char>, after: Seq<char>| #[trigger] (before + needle + after) == hay {
        let (before, after) = choose|before: Seq<char>, after: Seq<char>|
            #[trigger] (before + needle + after) == hay;
        let at = before.len() as int;
        assert(hay.subrange(at, at + needle.len()) =~= needle);
        assert(crate::text::stands_at(hay, needle, at));
    }
}

/// What trimming takes from the front.
pub proof fn lemma_trim_start(s: Seq<char>) -> (n: int)
    ensures
        0 <= n <= s.len(),
        crate::text::trim_start(s) == s.skip(n),
        forall|i: int| 0 <= i < n ==> crate::text::is_space(#[trigger] s[i]),
        n < s.len() ==> !crate::text::is_space(s[n]),
    decreases s.len(),
{
    if s.len() > 0 && crate::text::is_space(s[0]) {
        let m = lemma_trim_start(s.skip(1));
        assert(s.skip(1).skip(m) =~= s.skip(m + 1));
        assert forall|i: int| 0 <= i < m + 1 implies crate::text::is_space(#[trigger] s[i]) by {
            if i > 0 {
                assert(s[i] == s.skip(1)[i - 1]);
            }
        }
        m + 1
    } else {
        assert(s.skip(0) =~= s);
        0
    }
}

/// What trimming takes from the back.
pub proof fn lemma_trim_end(s: Seq<char>) -> (n: int)
    ensures
        0 <= n <= s.len(),
        crate::text::trim_end(s) == s.take(n),
        forall|i: int| n <= i < s.len() ==> crate::text::is_space(#[trigger] s[i]),
        n > 0 ==> !crate::text::is_space(s[n - 1]),
    decreases s.len(),
{
    if s.len() > 0 && crate::text::is_space(s.last()) {
        let t = s.drop_last();
        let m = lemma_trim_end(t);
        assert(t.take(m) =~= s.take(m));
        assert forall|i: int| m <= i < s.len() implies crate::text::is_space(#[trigger] s[i]) by {
            if i < s.len() - 1 {
                assert(s[i] == t[i]);
            }
        }
        m
    } else {
        assert(s.take(s.len() as int) =~= s);
        s.len() as int
    }
}

/// Trimming takes white space from both ends, all of it, and nothing else:
/// whatever a text without white space at its ends stands between, it is what
/// is left.
pub proof fn law_trim_takes_the_space(front: Seq<char>, core: Seq<char>, back: Seq<char>)
    requires
        forall|i: int| 0 <= i < front.len() ==> crate::text::is_space(#[trigger] front[i]),
        forall|i: int| 0 <= i < back.len() ==> crate::text::is_space(#[trigger] back[i]),
        core.len() > 0 ==> !crate::text::is_space(core[0]) && !crate::text::is_space(core.last()),
    ensures
        crate::text::trim(front + core + back) == core,
{
    let s = front + core + back;
    let n = lemma_trim_start(s);
    let t = crate::text::trim_start(s);
    let m = lemma_trim_end(t);
    if core.len() == 0 {
        if n < s.len() {
            if n < front.len() {
                assert(s[n] == front[n]);
            } else {
                assert(s[n] == back[n - front.len()]);
            }
        }
        assert(crate::text::trim(s) =~= core);
    } else {
        assert(s[front.len() as int] == core[0]);
        if n < front.len() {
            assert(s[n] == front[n]);
        }
        assert(n == front.len());
        assert(t =~= core + back);
        assert(t[core.len() - 1] == core.last());
        if m > core.len() {
            assert(t[m - 1] == back[m - 1 - core.len()]);
        }
        assert(m == core.len());
        assert(t.take(m) =~= core);
    }
}

/// The characters that are white space: of ASCII tab, line feed, vertical
/// tab, form feed, carriage return and space, and beyond it those that
/// Unicode lists. No other is, so no letter, digit, sign or bracket.
pub proof fn law_white_space(c: char)
    ensures
        crate::text::is_space(c) <==> {
            ||| c == '\t' || c == '\n' || c == '\x0B' || c == '\x0C' || c == '\r' || c == ' '
            ||| c == '\u{85}' || c == '\u{A0}' || c == '\u{1680}'
            ||| c == '\u{2000}' || c == '\u{2001}' || c == '\u{2002}' || c == '\u{2003}'
            ||| c == '\u{2004}' || c == '\u{2005}' || c == '\u{2006}' || c == '\u{2007}'
            ||| c == '\u{2008}' || c == '\u{2009}' || c == '\u{200A}'
            ||| c == '\u{2028}' || c == '\u{2029}' || c == '\u{202F}' || c == '\u{205F}'
            ||| c == '\u{3000}'
        },
{
}

/// A trimmed text begins with a word, in whatever case, exactly where the
/// word leads the text.
pub proof fn lemma_begins(s: Seq<char>, word: Seq<char>)
    requires
        is_capital_word(word),
    ensures
        crate::text::begins_with(crate::text::upper(crate::text::trim(s)), word) <==> exists|n: int|
            leads(s, n, word),
{
    let n = lemma_trim_start(s);
    let t = crate::text::trim_start(s);
    let m = lemma_trim_end(t);
    let u = crate::text::upper(crate::text::trim(s));
    if crate::text::begins_with(u, word) {
        assert forall|i: int| 0 <= i < word.len() implies crate::text::ascii_upper(s[n + i])
            == #[trigger] word[i] by {
            assert(u.subrange(0, word.len() as int)[i] == word[i]);
            assert(u[i] == crate::text::ascii_upper(t[i]));
        }
        assert(leads(s, n, word));
    }
    if exists|k: int| leads(s, k, word) {
        let k = choose|k: int| leads(s, k, word);
        lemma_leads(s, k, word);
        assert(crate::text::ascii_upper(s[k + 0]) == word[0]);
        if k < n {
            assert(crate::text::is_space(s[k]));
        }
        if n < k {
            assert(crate::text::is_space(s[n]));
        }
        assert(n == k);
        let last = word.len() - 1;
        assert(crate::text::ascii_upper(s[k + last]) == word[last]);
        if m <= last {
            assert(t[last] == s[n + last]);
            assert(crate::text::is_space(t[last]));
        }
        assert(u.subrange(0, word.len() as int) =~= word) by {
            assert forall|i: int| 0 <= i < word.len() implies u[i] == #[trigger] word[i] by {
                assert(crate::text::ascii_upper(s[k + i]) == word[i]);
                assert(t[i] == s[n + i]);
            }
        }
    }
}

/// The letters of a word that leads a text are no white space.
proof fn lemma_leads(s: Seq<char>, n: int, word: Seq<char>)
    requires
        is_capital_word(word),
        leads(s, n, word),
    ensures
        forall|i: int| 0 <= i < word.len() ==> !crate::text::is_space(#[trigger] s[n + i]),
{
    assert forall|i: int| 0 <= i < word.len() implies !crate::text::is_space(
        #[trigger] s[n + i],
    ) by {
        assert(crate::text::ascii_upper(s[n + i]) == word[i]);
    }
}

/// White space, a word and any rest: the word leads the text.
pub proof fn lemma_word_leads(space: Seq<char>, spelt: Seq<char>, rest: Seq<char>, word: Seq<char>)
    requires
        forall|i: int| 0 <= i < space.len() ==> crate::text::is_space(#[trigger] space[i]),
        crate::text::upper(spelt) == word,
    ensures
        leads(space + spelt + rest, space.len() as int, word),
{
    let s = space + spelt + rest;
    assert forall|i: int| 0 <= i < space.len() implies crate::text::is_space(#[trigger] s[i]) by {
        assert(s[i] == space[i]);
    }
    assert forall|i: int| 0 <= i < word.len() implies crate::text::ascii_upper(
        s[space.len() + i],
    ) == #[trigger] word[i] by {
        assert(s[space.len() + i] == spelt[i]);
        assert(crate::text::upper(spelt)[i] == word[i]);
    }
}

/// Of two words that lead a text, one is the beginning of the other.
pub proof fn lemma_one_leads(s: Seq<char>, n: int, a: Seq<char>, m: int, b: Seq<char>)
    requires
        is_capital_word(a),
        is_capital_word(b),
        leads(s, n, a),
        leads(s, m, b),
    ensures
        n == m,
        forall|i: int| 0 <= i < a.len() && i < b.len() ==> #[trigger] a[i] == b[i],
{
    lemma_leads(s, n, a);
    lemma_leads(s, m, b);
    if n < m {
        assert(crate::text::is_space(s[n + 0]));
    }
    if m < n {
        assert(crate::text::is_space(s[m + 0]));
    }
    assert forall|i: int| 0 <= i < a.len() && i < b.len() implies #[trigger] a[i] == b[i] by {
        assert(crate::text::ascii_upper(s[n + i]) == a[i]);
        assert(b[i] == crate::text::ascii_upper(s[m + i]));
    }
}

/// A text in capitals holds a word exactly where the text holds it in
/// whatever case.
pub proof fn lemma_occurs_upper(s: Seq<char>, word: Seq<char>)
    ensures
        crate::text::occurs(crate::text::upper(s), word) <==> holds_word(s, word),
{
    let u = crate::text::upper(s);
    if crate::text::occurs(u, word) {
        let at = choose|at: int| crate::text::stands_at(u, word, at);
        assert(crate::text::upper(s.subrange(at, at + word.len())) =~= u.subrange(
            at,
            at + word.len(),
        ));
    }
    if holds_word(s, word) {
        let at = choose|at: int|
            0 <= at && at + word.len() <= s.len() && crate::text::upper(
                #[trigger] s.subrange(at, at + word.len()),
            ) == word;
        assert(crate::text::upper(s.subrange(at, at + word.len())) =~= u.subrange(
            at,
            at + word.len(),
        ));
        assert(crate::text::stands_at(u, word, at));
    }
}

/// Something, a word and something: the text holds the word.
pub proof fn lemma_holds(before: Seq<char>, spelt: Seq<char>, after: Seq<char>, word: Seq<char>)
    requires
        crate::text::upper(spelt) == word,
    ensures
        holds_word(before + spelt + after, word),
{
    let s = before + spelt + after;
    let at = before.len() as int;
    assert(word.len() == spelt.len());
    assert(s.subrange(at, at + word.len()) =~= spelt);
}

/// A byte in hexadecimal is two of the sixteen digits, the first for
/// sixteens and the second for ones, and bytes are written in their order.
pub proof fn law_hex_digits(b: Seq<u8>, i: int)
    requires
        0 <= i < b.len(),
    ensures
        crate::text::hex_text(b).len() == 2 * b.len(),
        exists|high: int, low: int|
            {
                &&& 0 <= high < 16
                &&& 0 <= low < 16
                &&& b[i] == 16 * high + low
                &&& crate::text::hex_text(b)[2 * i] == #[trigger] "0123456789abcdef"@[high]
                &&& crate::text::hex_text(b)[2 * i + 1] == #[trigger] "0123456789abcdef"@[low]
            },
{
    reveal_strlit("0123456789abcdef");
    let digits = "0123456789abcdef"@;
    let high = b[i] as int / 16;
    let low = b[i] as int % 16;
    assert(2 * i / 2 == i && (2 * i + 1) / 2 == i);
    assert(crate::text::hex_text(b)[2 * i] == crate::text::hex_digit((b[i] / 16) as nat));
    assert(crate::text::hex_text(b)[2 * i + 1] == crate::text::hex_digit((b[i] % 16) as nat));
    assert(crate::text::hex_text(b)[2 * i] == digits[high]);
    assert(crate::text::hex_text(b)[2 * i + 1] == digits[low]);
}

/// A number in base ten ends in the digit for its ones, behind the text of
/// its tens; one below ten is its digit alone, and a negative one stands
/// behind a minus sign.
pub proof fn law_decimal_is_positional(n: nat, d: int)
    requires
        0 <= d < 10,
    ensures
        n > 0 ==> crate::text::decimal((10 * n + d) as nat) == crate::text::decimal(n).push(
            "0123456789"@[d],
        ),
        crate::text::decimal(d as nat) == seq!["0123456789"@[d]],
        crate::text::signed_decimal(n as int) == crate::text::decimal(n),
        n > 0 ==> crate::text::signed_decimal(-n) == seq!['-'] + crate::text::decimal(n),
{
    reveal_strlit("0123456789");
    let m = (10 * n + d) as nat;
    assert(m / 10 == n && m % 10 == d);
}

/// Only digits, behind at most one sign, are a number, and there is at least
/// one of them; a number that no signed sixty-four bits hold is none.
pub proof fn law_only_digits_are_a_number(s: Seq<char>)
    ensures
        crate::text::i64_value(s) is Some ==> {
            &&& s.len() > 0
            &&& s[0] == '+' || s[0] == '-' || "0123456789"@.contains(s[0])
            &&& s[0] == '+' || s[0] == '-' ==> s.len() > 1
            &&& forall|i: int| 1 <= i < s.len() ==> "0123456789"@.contains(#[trigger] s[i])
        },
{
    reveal_strlit("0123456789");
    let digits = "0123456789"@;
    if crate::text::i64_value(s) is Some {
        let signed = s.len() > 0 && (s[0] == '+' || s[0] == '-');
        if signed {
            assert forall|i: int| 1 <= i < s.len() implies digits.contains(#[trigger] s[i]) by {
                assert(s.skip(1)[i - 1] == s[i]);
                assert(crate::text::is_digit(s.skip(1)[i - 1]));
                assert(digits[s[i] as int - 48] == s[i]);
            }
        } else {
            assert forall|i: int| 0 <= i < s.len() implies digits.contains(#[trigger] s[i]) by {
                assert(crate::text::is_digit(s[i]));
                assert(digits[s[i] as int - 48] == s[i]);
            }
            assert(digits.contains(s[0]));
        }
    }
}

/// One more digit behind a number makes it ten times as much and the digit:
/// more where it is not written with a minus sign, and less where it is. Where
/// that leaves the range, the text is no number.
pub proof fn law_digits_count_by_tens(s: Seq<char>, d: int)
    requires
        0 <= d < 10,
        crate::text::i64_value(s) is Some,
    ensures
        ({
            let tens = 10 * crate::text::i64_value(s)->0;
            let more = if s[0] == '-' {
                tens - d
            } else {
                tens + d
            };
            crate::text::i64_value(s.push("0123456789"@[d])) == if i64::MIN <= more <= i64::MAX {
                Some(more as i64)
            } else {
                None
            }
        }),
        crate::text::i64_value(seq!["0123456789"@[d]]) == Some(d as i64),
        crate::text::i64_value(seq!['+', "0123456789"@[d]]) == Some(d as i64),
        crate::text::i64_value(seq!['-', "0123456789"@[d]]) == Some((-d) as i64),
{
    reveal_strlit("0123456789");
    let c = "0123456789"@[d];
    assert(c as int == 48 + d);
    let t = s.push(c);
    assert(t[0] == s[0]);
    let signed = s[0] == '+' || s[0] == '-';
    if signed {
        let (x, y) = (s.skip(1), t.skip(1));
        assert(y =~= x.push(c));
        assert(y.drop_last() =~= x);
        assert(y.last() == c);
        assert forall|i: int| 0 <= i < y.len() implies crate::text::is_digit(#[trigger] y[i]) by {
            if i < x.len() {
                assert(y[i] == x[i]);
                assert(crate::text::is_digit(x[i]));
            }
        }
    } else {
        assert(t.drop_last() =~= s);
        assert(t.last() == c);
        assert forall|i: int| 0 <= i < t.len() implies crate::text::is_digit(#[trigger] t[i]) by {
            if i < s.len() {
                assert(t[i] == s[i]);
                assert(crate::text::is_digit(s[i]));
            }
        }
    }
    let one = seq![c];
    assert(one.drop_last() =~= Seq::<char>::empty());
    assert(crate::text::digits_value(one.drop_last()) == 0);
    assert(one.last() == c);
    assert(crate::text::digits_value(one) == d);
    assert(seq!['+', c].skip(1) =~= one);
    assert(seq!['-', c].skip(1) =~= one);
}

/// A text without a letter of the word does not hold the word.
pub proof fn lemma_letter_missing(hay: Seq<char>, word: Seq<char>, k: int)
    requires
        0 <= k < word.len(),
        forall|i: int| 0 <= i < hay.len() ==> #[trigger] hay[i] != word[k],
    ensures
        !crate::text::occurs(hay, word),
{
    if crate::text::occurs(hay, word) {
        let at = choose|at: int| crate::text::stands_at(hay, word, at);
        assert(hay.subrange(at, at + word.len())[k] == hay[at + k]);
    }
}

/// The text says the words, in whatever case.
pub open spec fn says_words(s: Seq<char>, words: Seq<char>) -> bool {
    exists|at: int|
        0 <= at && at + words.len() <= s.len() && crate::text::lower(
            #[trigger] s.subrange(at, at + words.len()),
        ) == words
}

/// A text in small letters holds the words exactly where the text says them
/// in whatever case.
pub proof fn lemma_occurs_lower(s: Seq<char>, words: Seq<char>)
    ensures
        crate::text::occurs(crate::text::lower(s), words) <==> says_words(s, words),
{
    let u = crate::text::lower(s);
    if crate::text::occurs(u, words) {
        let at = choose|at: int| crate::text::stands_at(u, words, at);
        assert(crate::text::lower(s.subrange(at, at + words.len())) =~= u.subrange(
            at,
            at + words.len(),
        ));
    }
    if says_words(s, words) {
        let at = choose|at: int|
            0 <= at && at + words.len() <= s.len() && crate::text::lower(
                #[trigger] s.subrange(at, at + words.len()),
            ) == words;
        assert(crate::text::lower(s.subrange(at, at + words.len())) =~= u.subrange(
            at,
            at + words.len(),
        ));
        assert(crate::text::stands_at(u, words, at));
    }
}

/// Something, the words in whatever case and something: the text says them.
pub proof fn lemma_says(before: Seq<char>, spelt: Seq<char>, after: Seq<char>, words: Seq<char>)
    requires
        crate::text::lower(spelt) == words,
    ensures
        says_words(before + spelt + after, words),
{
    let s = before + spelt + after;
    let at = before.len() as int;
    assert(words.len() == spelt.len());
    assert(s.subrange(at, at + words.len()) =~= spelt);
}

/// The place that is found is the first: the text stands there and nowhere
/// before; and where none is found, the text stands nowhere.
pub proof fn law_first_place_is_found(hay: Seq<char>, needle: Seq<char>)
    ensures
        match crate::text::find(hay, needle) {
            Some(at) => {
                &&& 0 <= at
                &&& hay.take(at + needle.len()).skip(at) == needle
                &&& forall|k: int| 0 <= k < at ==> !#[trigger] crate::text::stands_at(
                    hay,
                    needle,
                    k,
                )
            },
            None => !crate::text::occurs(hay, needle),
        },
{
    lemma_first_place(hay, needle, 0);
    if let Some(at) = crate::text::find(hay, needle) {
        assert(hay.take(at + needle.len()).skip(at) =~= hay.subrange(at, at + needle.len()));
    }
}

proof fn lemma_first_place(hay: Seq<char>, needle: Seq<char>, from: int)
    requires
        0 <= from,
    ensures
        match crate::text::find_from(hay, needle, from) {
            Some(at) => {
                &&& from <= at
                &&& crate::text::stands_at(hay, needle, at)
                &&& forall|k: int|
                    from <= k < at ==> !#[trigger] crate::text::stands_at(hay, needle, k)
            },
            None => forall|k: int|
                from <= k ==> !#[trigger] crate::text::stands_at(hay, needle, k),
        },
    decreases hay.len() + 1 - from,
{
    if from + needle.len() <= hay.len() && !crate::text::stands_at(hay, needle, from) {
        lemma_first_place(hay, needle, from + 1);
    }
}

/// A text stands at a place exactly where its characters are those from the
/// place on.
pub proof fn law_stands_letter_by_letter(hay: Seq<char>, needle: Seq<char>, at: int)
    ensures
        crate::text::stands_at(hay, needle, at) <==> {
            &&& 0 <= at
            &&& at + needle.len() <= hay.len()
            &&& forall|i: int| 0 <= i < needle.len() ==> hay[at + i] == #[trigger] needle[i]
        },
{
    if 0 <= at && at + needle.len() <= hay.len() {
        let part = hay.subrange(at, at + needle.len());
        assert forall|i: int| 0 <= i < needle.len() implies part[i] == #[trigger] hay[at + i] by {}
        if forall|i: int| 0 <= i < needle.len() ==> hay[at + i] == #[trigger] needle[i] {
            assert(part =~= needle);
        }
        if part == needle {
            assert forall|i: int| 0 <= i < needle.len() implies hay[at + i]
                == #[trigger] needle[i] by {
                assert(part[i] == hay[at + i]);
            }
        }
    }
}

} // verus!
