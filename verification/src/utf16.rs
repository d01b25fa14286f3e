//! UTF-16 text.
use vstd::prelude::*;

verus! {

/// `char::from_u32` gives the character of a scalar value, and `None` for a
/// surrogate or a number above the last character.
pub assume_specification[ char::from_u32 ](i: u32) -> (r: Option<char>)
    ensures
        r == if i <= 0xD7FF || (0xE000 <= i <= 0x10FFFF) {
            Some(i as char)
        } else {
            None
        },
;

/// The code units of one character.
pub open spec fn char_units(c: char) -> Seq<u16> {
    let u = c as u32;
    if u < 0x10000 {
        seq![u as u16]
    } else {
        seq![
            (0xD800 + (u - 0x10000) / 0x400) as u16,
            (0xDC00 + (u - 0x10000) % 0x400) as u16,
        ]
    }
}

/// The code units of a text.
pub open spec fn units(s: Seq<char>) -> Seq<u16>
    decreases s.len(),
{
    if s.len() == 0 {
        Seq::empty()
    } else {
        units(s.drop_last()) + char_units(s.last())
    }
}

/// The code units as bytes, the less significant byte first.
pub open spec fn unit_bytes(u: Seq<u16>) -> Seq<u8> {
    Seq::new(
        2 * u.len(),
        |i: int|
            if i % 2 == 0 {
                (u[i / 2] % 256) as u8
            } else {
                (u[i / 2] / 256) as u8
            },
    )
}

/// The text in UTF-16, least significant byte first.
pub open spec fn utf16le(s: Seq<char>) -> Seq<u8> {
    unit_bytes(units(s))
}

/// The code units that the bytes write.
pub open spec fn bytes_units(b: Seq<u8>) -> Seq<u16> {
    Seq::new(b.len() / 2, |i: int| (b[2 * i] + 256 * b[2 * i + 1]) as u16)
}

pub open spec fn is_high(u: u16) -> bool {
    0xD800 <= u <= 0xDBFF
}

pub open spec fn is_low(u: u16) -> bool {
    0xDC00 <= u <= 0xDFFF
}

/// The text from the unit at `i` on; `None` where a surrogate stands alone.
pub open spec fn text_from(u: Seq<u16>, i: int) -> Option<Seq<char>>
    decreases u.len() - i,
{
    if i >= u.len() {
        Some(Seq::empty())
    } else if is_high(u[i]) {
        if i + 1 < u.len() && is_low(u[i + 1]) {
            match text_from(u, i + 2) {
                Some(rest) => Some(
                    seq![
                        (0x10000 + (u[i] - 0xD800) * 0x400 + (u[i + 1] - 0xDC00)) as char,
                    ] + rest,
                ),
                None => None,
            }
        } else {
            None
        }
    } else if is_low(u[i]) {
        None
    } else {
        match text_from(u, i + 1) {
            Some(rest) => Some(seq![u[i] as char] + rest),
            None => None,
        }
    }
}

/// The text that the code units write.
pub open spec fn text_of(u: Seq<u16>) -> Option<Seq<char>> {
    text_from(u, 0)
}

/// Appends the code units of a character as bytes.
fn push_char(out: &mut Vec<u8>, c: char)
    ensures
        final(out)@ == old(out)@ + unit_bytes(char_units(c)),
{
    let u: u32 = c as u32;
    if u < 0x10000 {
        out.push((u % 256) as u8);
        out.push((u / 256) as u8);
        assert(out@ =~= old(out)@ + unit_bytes(char_units(c)));
    } else {
        let high: u32 = 0xD800 + (u - 0x10000) / 0x400;
        let low: u32 = 0xDC00 + (u - 0x10000) % 0x400;
        out.push((high % 256) as u8);
        out.push((high / 256) as u8);
        out.push((low % 256) as u8);
        out.push((low / 256) as u8);
        assert(char_units(c) == seq![high as u16, low as u16]);
        assert(out@ =~= old(out)@ + unit_bytes(char_units(c)));
    }
}

proof fn lemma_unit_bytes_concat(a: Seq<u16>, b: Seq<u16>)
    ensures
        unit_bytes(a + b) == unit_bytes(a) + unit_bytes(b),
{
    assert forall|i: int| 0 <= i < 2 * (a + b).len() implies unit_bytes(a + b)[i] == (unit_bytes(a)
        + unit_bytes(b))[i] by {
        if i >= 2 * a.len() {
            assert((a + b)[i / 2] == b[(i - 2 * a.len()) / 2]);
        }
    }
    assert(unit_bytes(a + b) =~= unit_bytes(a) + unit_bytes(b));
}

/// The text in UTF-16, least significant byte first.
pub fn encode_utf16le(s: &str) -> (r: Vec<u8>)
    ensures
        r@ == utf16le(s@),
{
    let chars = crate::text::chars_of(s);
    let mut out: Vec<u8> = Vec::new();
    let mut i: usize = 0;
    assert(out@ =~= utf16le(chars@.take(0)));
    while i < chars.len()
        invariant
            i <= chars.len(),
            out@ == utf16le(chars@.take(i as int)),
        decreases chars.len() - i,
    {
        push_char(&mut out, chars[i]);
        proof {
            let t = chars@.take(i + 1);
            assert(t.drop_last() == chars@.take(i as int));
            lemma_unit_bytes_concat(units(chars@.take(i as int)), char_units(chars@[i as int]));
        }
        i += 1;
    }
    assert(chars@.take(i as int) == chars@);
    out
}

/// Reads UTF-16 text, least significant byte first.
pub fn decode_utf16le(data: &[u8]) -> (r: Option<String>)
    ensures
        match r {
            Some(s) => data@.len() % 2 == 0 && text_of(bytes_units(data@)) == Some(s@),
            None => data@.len() % 2 != 0 || text_of(bytes_units(data@)) is None,
        },
{
    if data.len() % 2 != 0 {
        return None;
    }
    let ghost u = bytes_units(data@);
    let n: usize = data.len() / 2;
    let mut s: String = String::new();
    let mut i: usize = 0;
    assert(text_of(u) == glued(s@, text_from(u, 0)));
    while i < n
        invariant
            n <= usize::MAX / 2,
            data@.len() == 2 * n,
            i <= n,
            u == bytes_units(data@),
            text_of(u) == glued(s@, text_from(u, i as int)),
        decreases n - i,
    {
        let unit: u16 = data[2 * i] as u16 + 256 * (data[2 * i + 1] as u16);
        assert(unit == u[i as int]);
        let ghost before = s@;
        if 0xD800 <= unit && unit <= 0xDBFF {
            if i + 1 >= n {
                return None;
            }
            let next: u16 = data[2 * i + 2] as u16 + 256 * (data[2 * i + 3] as u16);
            assert(next == u[i + 1]);
            if next < 0xDC00 || next > 0xDFFF {
                return None;
            }
            let scalar: u32 = 0x10000 + (unit as u32 - 0xD800) * 0x400 + (next as u32 - 0xDC00);
            match char::from_u32(scalar) {
                Some(c) => {
                    s.push(c);
                    proof {
                        lemma_glued(before, c, text_from(u, i + 2));
                    }
                    i += 2;
                },
                None => {
                    return None;
                },
            }
        } else if 0xDC00 <= unit && unit <= 0xDFFF {
            return None;
        } else {
            match char::from_u32(unit as u32) {
                Some(c) => {
                    s.push(c);
                    proof {
                        lemma_glued(before, c, text_from(u, i + 1));
                    }
                    i += 1;
                },
                None => {
                    return None;
                },
            }
        }
    }
    assert(s@ + Seq::<char>::empty() == s@);
    Some(s)
}

/// `front` ahead of a text, if there is one.
spec fn glued(front: Seq<char>, rest: Option<Seq<char>>) -> Option<Seq<char>> {
    match rest {
        Some(r) => Some(front + r),
        None => None,
    }
}

proof fn lemma_glued(front: Seq<char>, c: char, rest: Option<Seq<char>>)
    ensures
        glued(front.push(c), rest) == glued(front, glued(seq![c], rest)),
{
    if let Some(r) = rest {
        assert(front.push(c) + r == front + (seq![c] + r));
    }
}

proof fn lemma_text_from_shifted(front: Seq<u16>, u: Seq<u16>, i: int)
    requires
        0 <= i,
    ensures
        text_from(front + u, front.len() + i) == text_from(u, i),
    decreases u.len() - i,
{
    let all = front + u;
    if i < u.len() {
        assert(all[front.len() + i] == u[i]);
        if i + 1 < u.len() {
            assert(all[front.len() + i + 1] == u[i + 1]);
            lemma_text_from_shifted(front, u, i + 2);
        }
        lemma_text_from_shifted(front, u, i + 1);
    }
}

proof fn lemma_text_of_char(c: char, u: Seq<u16>)
    ensures
        text_of(char_units(c) + u) == glued(seq![c], text_of(u)),
{
    let front = char_units(c);
    let all = front + u;
    lemma_text_from_shifted(front, u, 0);
    assert(all[0] == front[0]);
    let v = c as u32;
    if v >= 0x10000 {
        assert(all[1] == front[1]);
        assert((v - 0x10000) / 0x400 * 0x400 + (v - 0x10000) % 0x400 == v - 0x10000);
        assert(v <= 0x10FFFF);
        assert((v - 0x10000) / 0x400 < 0x400);
        assert(0x10000 + (front[0] - 0xD800) * 0x400 + (front[1] - 0xDC00) == v);
    }
}

proof fn lemma_text_of_units(s: Seq<char>, u: Seq<u16>)
    ensures
        text_of(units(s) + u) == glued(s, text_of(u)),
    decreases s.len(),
{
    if s.len() == 0 {
        assert(units(s) + u == u);
        if let Some(r) = text_of(u) {
            assert(s + r == r);
        }
    } else {
        let front = s.drop_last();
        let c = s.last();
        lemma_text_of_units(front, char_units(c) + u);
        lemma_text_of_char(c, u);
        assert(units(s) + u == units(front) + (char_units(c) + u));
        lemma_glued(front, c, text_of(u));
        assert(front.push(c) == s);
    }
}

/// Text in UTF-16 reads back as it was written.
pub proof fn law_utf16_reads_back(s: Seq<char>)
    ensures
        utf16le(s).len() % 2 == 0,
        text_of(bytes_units(utf16le(s))) == Some(s),
{
    let u = units(s);
    let b = unit_bytes(u);
    assert forall|i: int| 0 <= i < u.len() implies bytes_units(b)[i] == u[i] by {
        assert(b[2 * i] == (u[i] % 256) as u8);
        assert(b[2 * i + 1] == (u[i] / 256) as u8);
    }
    assert(bytes_units(b) =~= u);
    lemma_text_of_units(s, Seq::empty());
    assert(u + Seq::<u16>::empty() == u);
    assert(s + Seq::<char>::empty() == s);
}

/// A character below U+10000 is one unit of two bytes, the less significant
/// first; any other is two units, the first telling the upper ten bits of
/// what it is above U+10000 and the second the lower ten. One more character
/// is written behind the others.
pub proof fn law_utf16_by_character(s: Seq<char>, c: char)
    ensures
        ({
            let few = utf16le(s);
            let b = utf16le(s.push(c)).skip(few.len() as int);
            &&& utf16le(s.push(c)) == few + b
            &&& s.len() == 0 ==> few.len() == 0
            &&& (c as u32) < 0x1_0000 ==> b.len() == 2 && b[0] + 256 * b[1] == c as u32
            &&& (c as u32) >= 0x1_0000 ==> {
                let high = b[0] + 256 * b[1];
                let low = b[2] + 256 * b[3];
                &&& b.len() == 4
                &&& 0xD800 <= high < 0xDC00
                &&& 0xDC00 <= low < 0xE000
                &&& 0x1_0000 + 0x400 * (high - 0xD800) + (low - 0xDC00) == c as u32
            }
        }),
{
    let t = s.push(c);
    assert(t.drop_last() =~= s);
    assert(units(t) == units(s) + char_units(c));
    let few = utf16le(s);
    let last = unit_bytes(char_units(c));
    assert(utf16le(t) =~= few + last);
    let b = utf16le(t).skip(few.len() as int);
    assert(b =~= last);
    let u = char_units(c);
    assert(b[0] == (u[0] % 256) as u8 && b[1] == (u[0] / 256) as u8);
    if (c as u32) >= 0x1_0000 {
        assert(u.len() == 2);
        assert(b[2] == (u[1] % 256) as u8 && b[3] == (u[1] / 256) as u8);
    }
}

proof fn lemma_units_of_both(a: Seq<char>, b: Seq<char>)
    ensures
        units(a + b) == units(a) + units(b),
    decreases b.len(),
{
    if b.len() == 0 {
        assert(a + b =~= a);
        assert(units(a) + units(b) =~= units(a));
    } else {
        let front = b.drop_last();
        lemma_units_of_both(a, front);
        assert((a + b).drop_last() =~= a + front);
        assert((a + b).last() == b.last());
        assert(units(a + b) =~= units(a) + units(b));
    }
}

proof fn lemma_text_has_units(u: Seq<u16>, i: int)
    requires
        0 <= i <= u.len(),
    ensures
        text_from(u, i) matches Some(t) ==> units(t) == u.skip(i),
    decreases u.len() - i,
{
    if i < u.len() {
        let high = is_high(u[i]);
        let next = if high {
            i + 2
        } else {
            i + 1
        };
        if text_from(u, i) is Some {
            lemma_text_has_units(u, next);
            let rest = text_from(u, next)->0;
            let c = text_from(u, i)->0[0];
            let one = seq![c];
            lemma_units_of_both(one, rest);
            assert(one.drop_last() =~= Seq::<char>::empty());
            assert(units(one.drop_last()) =~= Seq::<u16>::empty());
            assert(units(one) =~= char_units(c));
            assert(text_from(u, i)->0 =~= one + rest);
            if high {
                assert(c as u32 == 0x10000 + (u[i] - 0xD800) * 0x400 + (u[i + 1] - 0xDC00));
                assert(char_units(c) =~= seq![u[i], u[i + 1]]);
                assert(u.skip(i) =~= seq![u[i], u[i + 1]] + u.skip(i + 2));
            } else {
                assert(c as u32 == u[i]);
                assert(char_units(c) =~= seq![u[i]]);
                assert(u.skip(i) =~= seq![u[i]] + u.skip(i + 1));
            }
        }
    } else {
        assert(u.skip(i) =~= Seq::<u16>::empty());
    }
}

/// Bytes are read as a text only where they are that text in UTF-16: bytes of
/// an odd number are none, and neither are halves of a pair that stand alone.
pub proof fn law_only_utf16_is_read(data: &[u8], r: Option<String>, s: Seq<char>)
    requires
        call_ensures(decode_utf16le, (data,), r),
    ensures
        r matches Some(t) ==> utf16le(t@) == data@,
        data@ == utf16le(s) ==> r is Some && r->0@ == s,
{
    law_utf16_reads_back(s);
    if let Some(t) = r {
        let u = bytes_units(data@);
        lemma_text_has_units(u, 0);
        assert(u.skip(0) =~= u);
        assert(units(t@) == u);
        assert(unit_bytes(u) =~= data@) by {
            assert forall|i: int| 0 <= i < data@.len() implies unit_bytes(u)[i] == data@[i] by {
                let k = i / 2;
                assert(u[k] == data@[2 * k] + 256 * data@[2 * k + 1]);
            }
        }
    }
}

} // verus!
