//! Integers as bytes, in either byte order.
use vstd::prelude::*;

verus! {

/// `n` as `width` bytes, least significant first.
pub open spec fn le(n: nat, width: nat) -> Seq<u8>
    decreases width,
{
    if width == 0 {
        Seq::empty()
    } else {
        seq![(n % 256) as u8] + le(n / 256, (width - 1) as nat)
    }
}

/// `n` as `width` bytes, most significant first.
pub open spec fn be(n: nat, width: nat) -> Seq<u8>
    decreases width,
{
    if width == 0 {
        Seq::empty()
    } else {
        be(n / 256, (width - 1) as nat).push((n % 256) as u8)
    }
}

/// `i` as `width` bytes of two's complement, least significant first.
pub open spec fn le_signed(i: int, width: nat) -> Seq<u8>
    decreases width,
{
    if width == 0 {
        Seq::empty()
    } else {
        seq![(i % 256) as u8] + le_signed(i / 256, (width - 1) as nat)
    }
}

/// `i` as `width` bytes of two's complement, most significant first.
pub open spec fn be_signed(i: int, width: nat) -> Seq<u8>
    decreases width,
{
    if width == 0 {
        Seq::empty()
    } else {
        be_signed(i / 256, (width - 1) as nat).push((i % 256) as u8)
    }
}

/// The number that bytes of two's complement write, most significant first.
pub open spec fn be_signed_value(s: Seq<u8>) -> int
    decreases s.len(),
{
    if s.len() == 0 {
        0
    } else if s.len() == 1 {
        if s[0] < 128 {
            s[0] as int
        } else {
            s[0] as int - 256
        }
    } else {
        256 * be_signed_value(s.drop_last()) + s.last() as int
    }
}

/// The number that the bytes write, least significant first.
pub open spec fn le_value(s: Seq<u8>) -> nat
    decreases s.len(),
{
    if s.len() == 0 {
        0
    } else {
        s[0] as nat + 256 * le_value(s.skip(1))
    }
}

/// Appending in turn is appending at once.
pub proof fn lemma_append2(h: Seq<u8>, a: Seq<u8>, b: Seq<u8>)
    ensures
        h + a + b == h + (a + b),
{
    assert(h + a + b =~= h + (a + b));
}

pub proof fn lemma_append3(h: Seq<u8>, a: Seq<u8>, b: Seq<u8>, c: Seq<u8>)
    ensures
        h + a + b + c == h + (a + b + c),
{
    lemma_append2(h, a, b);
    lemma_append2(h, a + b, c);
}

pub proof fn lemma_append4(
    h: Seq<u8>,
    a: Seq<u8>,
    b: Seq<u8>,
    c: Seq<u8>,
    d: Seq<u8>,
)
    ensures
        h + a + b + c + d == h + (a + b + c + d),
{
    lemma_append3(h, a, b, c);
    lemma_append2(h, a + b + c, d);
}

pub proof fn lemma_append5(
    h: Seq<u8>,
    a: Seq<u8>,
    b: Seq<u8>,
    c: Seq<u8>,
    d: Seq<u8>,
    e: Seq<u8>,
)
    ensures
        h + a + b + c + d + e == h + (a + b + c + d + e),
{
    lemma_append4(h, a, b, c, d);
    lemma_append2(h, a + b + c + d, e);
}

pub proof fn lemma_append6(
    h: Seq<u8>,
    a: Seq<u8>,
    b: Seq<u8>,
    c: Seq<u8>,
    d: Seq<u8>,
    e: Seq<u8>,
    f: Seq<u8>,
)
    ensures
        h + a + b + c + d + e + f == h + (a + b + c + d + e + f),
{
    lemma_append5(h, a, b, c, d, e);
    lemma_append2(h, a + b + c + d + e, f);
}

pub proof fn lemma_append7(
    h: Seq<u8>,
    a: Seq<u8>,
    b: Seq<u8>,
    c: Seq<u8>,
    d: Seq<u8>,
    e: Seq<u8>,
    f: Seq<u8>,
    g: Seq<u8>,
)
    ensures
        h + a + b + c + d + e + f + g == h + (a + b + c + d + e + f + g),
{
    lemma_append6(h, a, b, c, d, e, f);
    lemma_append2(h, a + b + c + d + e + f, g);
}

pub proof fn lemma_le_len(n: nat, width: nat)
    ensures
        le(n, width).len() == width,
    decreases width,
{
    if width > 0 {
        lemma_le_len(n / 256, (width - 1) as nat);
    }
}

pub proof fn lemma_be_len(n: nat, width: nat)
    ensures
        be(n, width).len() == width,
    decreases width,
{
    if width > 0 {
        lemma_be_len(n / 256, (width - 1) as nat);
    }
}

pub proof fn lemma_le_signed_len(i: int, width: nat)
    ensures
        le_signed(i, width).len() == width,
    decreases width,
{
    if width > 0 {
        lemma_le_signed_len(i / 256, (width - 1) as nat);
    }
}

pub proof fn lemma_be_signed_len(i: int, width: nat)
    ensures
        be_signed(i, width).len() == width,
    decreases width,
{
    if width > 0 {
        lemma_be_signed_len(i / 256, (width - 1) as nat);
    }
}

/// `i` fits in `width` bytes of two's complement.
pub open spec fn signed_fits(i: int, width: nat) -> bool
    decreases width,
{
    if width <= 1 {
        width == 1 && -128 <= i < 128
    } else {
        signed_fits(i / 256, (width - 1) as nat)
    }
}

/// A number of two's complement reads back from the bytes that write it.
pub proof fn law_be_signed_reads_back(i: int, width: nat)
    requires
        signed_fits(i, width),
    ensures
        be_signed_value(be_signed(i, width)) == i,
    decreases width,
{
    lemma_be_signed_len(i, width);
    let w = (width - 1) as nat;
    assert(be_signed(i, width).drop_last() == be_signed(i / 256, w));
    if width == 1 {
        reveal_with_fuel(be_signed, 2);
        assert(be_signed(i, 1)[0] == (i % 256) as u8);
    } else {
        law_be_signed_reads_back(i / 256, w);
        lemma_be_signed_len(i / 256, w);
    }
}

/// Numbers that differ by a multiple of `256^width` have the same bytes.
pub proof fn lemma_signed_bytes(i: int, n: nat, width: nat, m: int)
    requires
        i == n - m * vstd::arithmetic::power::pow(256, width),
    ensures
        be_signed(i, width) == be(n, width),
    decreases width,
{
    if width > 0 {
        let w = (width - 1) as nat;
        let p = vstd::arithmetic::power::pow(256, w);
        assert(vstd::arithmetic::power::pow(256, width) == 256 * p) by {
            reveal_with_fuel(vstd::arithmetic::power::pow, 2);
        }
        assert(m * (256 * p) == 256 * (m * p)) by (nonlinear_arith);
        assert(i / 256 == n / 256 - m * p);
        assert(i % 256 == n % 256);
        lemma_signed_bytes(i / 256, n / 256, w, m);
    }
}

pub proof fn lemma_i64_fits(i: i64)
    ensures
        signed_fits(i as int, 8),
{
    reveal_with_fuel(signed_fits, 8);
}

pub proof fn lemma_be2(n: nat)
    ensures
        be(n, 2) == seq![(n / 256 % 256) as u8, (n % 256) as u8],
{
    reveal_with_fuel(be, 3);
    assert(be(n, 2) =~= seq![(n / 256 % 256) as u8, (n % 256) as u8]);
}

/// Two bytes write the low sixteen bits.
pub proof fn lemma_be2_low(n: nat)
    ensures
        be(n % 65536, 2) == be(n, 2),
{
    lemma_be2(n);
    lemma_be2(n % 65536);
    assert(n % 65536 % 256 == n % 256);
    assert(n % 65536 / 256 % 256 == n / 256 % 256);
}

/// Two bytes write the low sixteen bits.
pub proof fn lemma_le2_low(n: nat)
    ensures
        le(n % 65536, 2) == le(n, 2),
{
    lemma_le2(n);
    lemma_le2(n % 65536);
    assert(n % 65536 % 256 == n % 256);
    assert(n % 65536 / 256 % 256 == n / 256 % 256);
}

/// The two bytes of `n`, least significant first.
pub proof fn lemma_le2(n: nat)
    ensures
        le(n, 2) == seq![(n % 256) as u8, (n / 256 % 256) as u8],
{
    reveal_with_fuel(le, 3);
    assert(le(n, 2) =~= seq![(n % 256) as u8, (n / 256 % 256) as u8]);
}

pub proof fn lemma_le3(n: nat)
    ensures
        le(n, 3) == seq![(n % 256) as u8, (n / 256 % 256) as u8, (n / 65536 % 256) as u8],
{
    reveal_with_fuel(le, 4);
    assert(n / 256 / 256 == n / 65536);
    assert(le(n, 3) =~= seq![
        (n % 256) as u8,
        (n / 256 % 256) as u8,
        (n / 65536 % 256) as u8,
    ]);
}

/// A number that fits reads back from the bytes that write it.
pub proof fn law_le_reads_back(n: nat, width: nat)
    requires
        n < vstd::arithmetic::power::pow(256, width),
    ensures
        le_value(le(n, width)) == n,
    decreases width,
{
    if width == 0 {
        assert(vstd::arithmetic::power::pow(256, 0) == 1) by {
            vstd::arithmetic::power::lemma_pow0(256);
        }
    } else {
        let w = (width - 1) as nat;
        assert(vstd::arithmetic::power::pow(256, width) == 256 * vstd::arithmetic::power::pow(
            256,
            w,
        )) by {
            reveal_with_fuel(vstd::arithmetic::power::pow, 2);
        }
        law_le_reads_back(n / 256, w);
        assert(le(n, width).skip(1) == le(n / 256, w));
    }
}

/// The number that eight bytes write, the first of them counting ones, the
/// next 256s, and so on.
pub open spec fn low_first8(b: Seq<u8>) -> int {
    b[0] + 0x100 * b[1] + 0x1_0000 * b[2] + 0x100_0000 * b[3] + 0x1_0000_0000 * b[4]
        + 0x100_0000_0000 * b[5] + 0x1_0000_0000_0000 * b[6] + 0x100_0000_0000_0000 * b[7]
}

/// A signed number of eight bytes is written in two's complement: the bytes
/// write the number itself where it is not negative, and the number and 2^64
/// where it is.
pub proof fn law_le_signed_is_twos_complement(i: i64)
    ensures
        le_signed(i as int, 8).len() == 8,
        low_first8(le_signed(i as int, 8)) == if i < 0 {
            i + 0x1_0000_0000_0000_0000
        } else {
            i as int
        },
{
    lemma_le_signed_len(i as int, 8);
    let i0 = i as int;
    let i1 = i0 / 256;
    let i2 = i1 / 256;
    let i3 = i2 / 256;
    let i4 = i3 / 256;
    let i5 = i4 / 256;
    let i6 = i5 / 256;
    let i7 = i6 / 256;
    let b = le_signed(i0, 8);
    reveal_with_fuel(le_signed, 9);
    assert(b[0] == i0 % 256);
    assert(b[1] == i1 % 256);
    assert(b[2] == i2 % 256);
    assert(b[3] == i3 % 256);
    assert(b[4] == i4 % 256);
    assert(b[5] == i5 % 256);
    assert(b[6] == i6 % 256);
    assert(b[7] == i7 % 256);
}

/// The bytes of a number below 2^64, and of one below 2^32, count ones, 256s
/// and so on, least significant first.
pub proof fn law_le_counts(n: u64)
    ensures
        le(n as nat, 8).len() == 8,
        low_first8(le(n as nat, 8)) == n,
        le(n as nat, 4).len() == 4,
        n < 0x1_0000_0000 ==> le(n as nat, 4)[0] + 0x100 * le(n as nat, 4)[1] + 0x1_0000 * le(
            n as nat,
            4,
        )[2] + 0x100_0000 * le(n as nat, 4)[3] == n,
{
    lemma_le_len(n as nat, 8);
    lemma_le_len(n as nat, 4);
    let i0 = n as nat;
    let i1 = i0 / 256;
    let i2 = i1 / 256;
    let i3 = i2 / 256;
    let i4 = i3 / 256;
    let i5 = i4 / 256;
    let i6 = i5 / 256;
    let i7 = i6 / 256;
    let b = le(i0, 8);
    let c = le(i0, 4);
    reveal_with_fuel(le, 9);
    assert(b[0] == i0 % 256 && c[0] == i0 % 256);
    assert(b[1] == i1 % 256 && c[1] == i1 % 256);
    assert(b[2] == i2 % 256 && c[2] == i2 % 256);
    assert(b[3] == i3 % 256 && c[3] == i3 % 256);
    assert(b[4] == i4 % 256);
    assert(b[5] == i5 % 256);
    assert(b[6] == i6 % 256);
    assert(b[7] == i7 % 256);
}

/// The number that eight bytes write, the last of them counting ones, the
/// one before it 256s, and so on.
pub open spec fn high_first8(b: Seq<u8>) -> int {
    b[7] + 0x100 * b[6] + 0x1_0000 * b[5] + 0x100_0000 * b[4] + 0x1_0000_0000 * b[3]
        + 0x100_0000_0000 * b[2] + 0x1_0000_0000_0000 * b[1] + 0x100_0000_0000_0000 * b[0]
}

/// The number that four bytes write, in the same way.
pub open spec fn high_first4(b: Seq<u8>) -> int {
    b[3] + 0x100 * b[2] + 0x1_0000 * b[1] + 0x100_0000 * b[0]
}

/// Two's complement, most significant byte first: the number that the bytes
/// write, less 256 to their number where the first is 128 or more.
pub proof fn law_be_signed_value_is_twos_complement(b: Seq<u8>)
    ensures
        b.len() == 2 ==> be_signed_value(b) == b[1] + 0x100 * b[0] - (if b[0] < 128 {
            0int
        } else {
            0x1_0000
        }),
        b.len() == 4 ==> be_signed_value(b) == high_first4(b) - (if b[0] < 128 {
            0int
        } else {
            0x1_0000_0000
        }),
        b.len() == 8 ==> be_signed_value(b) == high_first8(b) - (if b[0] < 128 {
            0int
        } else {
            0x1_0000_0000_0000_0000
        }),
{
    reveal_with_fuel(be_signed_value, 8);
    if b.len() == 2 || b.len() == 4 || b.len() == 8 {
        let b7 = b.drop_last();
        let b6 = b7.drop_last();
        let b5 = b6.drop_last();
        let b4 = b5.drop_last();
        let b3 = b4.drop_last();
        let b2 = b3.drop_last();
        let b1 = b2.drop_last();
        if b.len() == 8 {
            assert(b1[0] == b[0] && b2.last() == b[1] && b3.last() == b[2] && b4.last() == b[3]);
            assert(b5.last() == b[4] && b6.last() == b[5] && b7.last() == b[6]);
        } else if b.len() == 4 {
            assert(b5[0] == b[0] && b6.last() == b[1] && b7.last() == b[2]);
        } else {
            assert(b7[0] == b[0]);
        }
    }
}

/// The bytes of a number below 2^64, and of one below 2^32, count ones, 256s
/// and so on from the last, and those of a signed one write it in two's
/// complement.
pub proof fn law_be_counts(n: u64, i: i64)
    ensures
        be(n as nat, 8).len() == 8,
        high_first8(be(n as nat, 8)) == n,
        be(n as nat, 4).len() == 4,
        n < 0x1_0000_0000 ==> high_first4(be(n as nat, 4)) == n,
        be_signed(i as int, 8).len() == 8,
        high_first8(be_signed(i as int, 8)) == if i < 0 {
            i + 0x1_0000_0000_0000_0000
        } else {
            i as int
        },
{
    lemma_be_len(n as nat, 8);
    lemma_be_len(n as nat, 4);
    lemma_be_signed_len(i as int, 8);
    let n0 = n as nat;
    let n1 = n0 / 256;
    let n2 = n1 / 256;
    let n3 = n2 / 256;
    let n4 = n3 / 256;
    let n5 = n4 / 256;
    let n6 = n5 / 256;
    let n7 = n6 / 256;
    let i0 = i as int;
    let i1 = i0 / 256;
    let i2 = i1 / 256;
    let i3 = i2 / 256;
    let i4 = i3 / 256;
    let i5 = i4 / 256;
    let i6 = i5 / 256;
    let i7 = i6 / 256;
    let b = be(n0, 8);
    let c = be(n0, 4);
    let d = be_signed(i0, 8);
    reveal_with_fuel(be, 9);
    reveal_with_fuel(be_signed, 9);
    assert(b[7] == n0 % 256 && b[6] == n1 % 256 && b[5] == n2 % 256 && b[4] == n3 % 256);
    assert(b[3] == n4 % 256 && b[2] == n5 % 256 && b[1] == n6 % 256 && b[0] == n7 % 256);
    assert(c[3] == n0 % 256 && c[2] == n1 % 256 && c[1] == n2 % 256 && c[0] == n3 % 256);
    assert(d[7] == i0 % 256 && d[6] == i1 % 256 && d[5] == i2 % 256 && d[4] == i3 % 256);
    assert(d[3] == i4 % 256 && d[2] == i5 % 256 && d[1] == i6 % 256 && d[0] == i7 % 256);
}

} // verus!
