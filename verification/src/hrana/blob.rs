//! Bytes as base64 text.
use base64::Engine;
use vstd::prelude::*;

verus! {

/// The character of six bits.
pub open spec fn sextet(d: int) -> char {
    if d < 26 {
        (65 + d) as char
    } else if d < 52 {
        (71 + d) as char
    } else if d < 62 {
        (d - 4) as char
    } else if d == 62 {
        '+'
    } else {
        '/'
    }
}

/// Bytes in base64: four characters for three bytes, and for the one or two
/// bytes that may be left over with `=` in place of what is missing.
pub open spec fn base64_text(b: Seq<u8>) -> Seq<char>
    decreases b.len(),
{
    if b.len() == 0 {
        Seq::empty()
    } else if b.len() == 1 {
        seq![sextet(b[0] as int / 4), sextet(b[0] as int % 4 * 16), '=', '=']
    } else if b.len() == 2 {
        seq![
            sextet(b[0] as int / 4),
            sextet(b[0] as int % 4 * 16 + b[1] as int / 16),
            sextet(b[1] as int % 16 * 4),
            '=',
        ]
    } else {
        seq![
            sextet(b[0] as int / 4),
            sextet(b[0] as int % 4 * 16 + b[1] as int / 16),
            sextet(b[1] as int % 16 * 4 + b[2] as int / 64),
            sextet(b[2] as int % 64),
        ] + base64_text(b.skip(3))
    }
}

/// The text of bytes can be held in memory.
pub open spec fn has_text(b: Seq<u8>) -> bool {
    (b.len() + 2) / 3 * 4 <= isize::MAX
}

/// `STANDARD.encode` of the `base64` crate gives the base64 text of bytes,
/// with padding.
#[verifier::external_body]
pub(crate) fn encode_base64(bytes: &[u8]) -> (r: String)
    requires
        has_text(bytes@),
    ensures
        r@ == base64_text(bytes@),
{
    base64::engine::general_purpose::STANDARD.encode(bytes)
}

/// `STANDARD.decode` of the `base64` crate gives the bytes of a base64 text.
/// It fails on any text that is not the text of some bytes: it wants the
/// padding, and wants the bits that are not used to be zero.
#[verifier::external_body]
pub(crate) fn decode_base64(text: &str) -> (r: Option<Vec<u8>>)
    ensures
        match r {
            Some(b) => base64_text(b@) == text@,
            None => !is_base64(text@),
        },
{
    base64::engine::general_purpose::STANDARD.decode(text).ok()
}

/// `text` is the base64 text of some bytes.
pub open spec fn is_base64(text: Seq<char>) -> bool {
    exists|b: Seq<u8>| #[trigger] base64_text(b) == text
}

proof fn lemma_sextet(a: int, b: int)
    requires
        0 <= a < 64,
        0 <= b < 64,
        sextet(a) == sextet(b),
    ensures
        a == b,
{
    assert('+' as int == 43);
    assert('/' as int == 47);
}

proof fn lemma_not_padding(a: int)
    requires
        0 <= a < 64,
    ensures
        sextet(a) != '=',
{
}

/// Different bytes have different texts.
pub proof fn law_base64_tells_apart(a: Seq<u8>, b: Seq<u8>)
    requires
        base64_text(a) == base64_text(b),
    ensures
        a == b,
    decreases a.len(),
{
    let s = base64_text(a);
    let t = base64_text(b);
    if a.len() == 0 || b.len() == 0 {
        assert(s.len() == 0 && t.len() == 0);
        assert(a =~= b);
    } else {
        lemma_head(a);
        lemma_head(b);
        assert(head(a) =~= head(b)) by {
            assert(head(a) =~= s.take(4));
            assert(head(b) =~= t.take(4));
        }
        lemma_group(a, b);
        if a.len() >= 3 {
            assert(s.skip(4) =~= base64_text(a.skip(3)));
            assert(t.skip(4) =~= base64_text(b.skip(3)));
            law_base64_tells_apart(a.skip(3), b.skip(3));
            assert(a =~= a.take(3) + a.skip(3));
            assert(b =~= b.take(3) + b.skip(3));
            assert(a.take(3) =~= b.take(3));
        } else {
            assert(a =~= b);
        }
    }
}

/// The first four characters of the text.
spec fn head(b: Seq<u8>) -> Seq<char> {
    if b.len() == 1 {
        seq![sextet(b[0] as int / 4), sextet(b[0] as int % 4 * 16), '=', '=']
    } else if b.len() == 2 {
        seq![
            sextet(b[0] as int / 4),
            sextet(b[0] as int % 4 * 16 + b[1] as int / 16),
            sextet(b[1] as int % 16 * 4),
            '=',
        ]
    } else {
        seq![
            sextet(b[0] as int / 4),
            sextet(b[0] as int % 4 * 16 + b[1] as int / 16),
            sextet(b[1] as int % 16 * 4 + b[2] as int / 64),
            sextet(b[2] as int % 64),
        ]
    }
}

proof fn lemma_head(b: Seq<u8>)
    requires
        b.len() > 0,
    ensures
        base64_text(b).len() >= 4,
        base64_text(b).take(4) == head(b),
        b.len() < 3 ==> base64_text(b) == head(b),
        b.len() >= 3 ==> base64_text(b).skip(4) == base64_text(b.skip(3)),
{
    assert(base64_text(b).take(4) =~= head(b));
    if b.len() >= 3 {
        assert(base64_text(b).skip(4) =~= base64_text(b.skip(3)));
    }
}

/// The first four characters tell the first bytes, and whether there are
/// fewer than three.
proof fn lemma_group(a: Seq<u8>, b: Seq<u8>)
    requires
        a.len() > 0,
        b.len() > 0,
        head(a) == head(b),
    ensures
        a.len() >= 3 <==> b.len() >= 3,
        a.len() < 3 ==> a.len() == b.len(),
        forall|i: int| 0 <= i < 3 && i < a.len() ==> a[i] == b[i],
{
    let (s, t) = (head(a), head(b));
    assert(s[0] == t[0] && s[1] == t[1] && s[2] == t[2] && s[3] == t[3]);
    lemma_sextet(a[0] as int / 4, b[0] as int / 4);
    if a.len() >= 3 {
        lemma_not_padding(a[2] as int % 64);
        lemma_not_padding(a[1] as int % 16 * 4 + a[2] as int / 64);
    }
    if b.len() >= 3 {
        lemma_not_padding(b[2] as int % 64);
        lemma_not_padding(b[1] as int % 16 * 4 + b[2] as int / 64);
    }
    if a.len() == 2 {
        lemma_not_padding(a[1] as int % 16 * 4);
    }
    if b.len() == 2 {
        lemma_not_padding(b[1] as int % 16 * 4);
    }
    if a.len() == 1 {
        lemma_sextet(a[0] as int % 4 * 16, b[0] as int % 4 * 16);
    } else {
        lemma_sextet(
            a[0] as int % 4 * 16 + a[1] as int / 16,
            b[0] as int % 4 * 16 + b[1] as int / 16,
        );
        if a.len() == 2 {
            lemma_sextet(a[1] as int % 16 * 4, b[1] as int % 16 * 4);
        } else {
            lemma_sextet(
                a[1] as int % 16 * 4 + a[2] as int / 64,
                b[1] as int % 16 * 4 + b[2] as int / 64,
            );
            lemma_sextet(a[2] as int % 64, b[2] as int % 64);
        }
    }
}

} // verus!
