//! What holds of values and errors, whatever they hold.
use crate::backend::{BackendError, Value};
use vstd::prelude::*;

verus! {

/// A value reads as what it is: an integer in base ten, a text as itself, a
/// float as its decimal text, bytes by their number, and a null by its name.
pub proof fn law_values_read_as_they_are(v: Value, r: String)
    requires
        call_ensures(Value::to_text, (&v,), r),
    ensures
        match v@ {
            crate::backend::Datum::Null => r@ == "NULL"@,
            crate::backend::Datum::Integer(i) => crate::text::i64_value(r@) == Some(i),
            crate::backend::Datum::Float(d) => r@ == d.text,
            crate::backend::Datum::Text(s) => r@ == s,
            crate::backend::Datum::Blob(b) => r@ == "<blob "@ + crate::text::decimal(b.len())
                + " bytes>"@,
        },
{
    if let crate::backend::Datum::Integer(i) = v@ {
        crate::text::law_decimal_reads_back(i);
    }
}

/// An error reads as where it comes from and its message.
pub proof fn law_errors_read_as_they_are(e: BackendError, r: String)
    requires
        call_ensures(BackendError::to_text, (&e,), r),
    ensures
        e matches BackendError::Sqlite(m) ==> r@ == "SQLite error: "@ + m@,
        e matches BackendError::Other(m) ==> r@ == "backend error: "@ + m@,
{
}

/// A double is not a number where all bits of its exponent are set and some
/// of its fraction are.
pub open spec fn is_no_number(bits: u64) -> bool {
    bits / 0x10_0000_0000_0000 % 0x800 == 0x7FF && bits % 0x10_0000_0000_0000 != 0
}

/// Doubles are equal as numbers: what is not a number equals nothing, not
/// even itself, the two zeros are equal, and any other is equal to itself
/// alone.
pub proof fn law_doubles_are_equal_as_numbers(a: u64, b: u64)
    ensures
        is_no_number(a) || is_no_number(b) ==> !crate::backend::bits_equal(a, b),
        !is_no_number(a) && !is_no_number(b) ==> (crate::backend::bits_equal(a, b) <==> a == b || (a
            == 0 || a == 0x8000_0000_0000_0000) && (b == 0 || b == 0x8000_0000_0000_0000)),
{
    lemma_no_number(a);
    lemma_no_number(b);
}

proof fn lemma_no_number(bits: u64)
    ensures
        is_no_number(bits) <==> crate::backend::bits_are_nan(bits),
        bits % 0x8000_0000_0000_0000 == 0 <==> bits == 0 || bits == 0x8000_0000_0000_0000,
{
    let low = bits as int % 0x8000_0000_0000_0000;
    let exponent = low / 0x10_0000_0000_0000;
    assert(bits as int / 0x10_0000_0000_0000 % 0x800 == exponent);
    assert(bits as int % 0x10_0000_0000_0000 == low % 0x10_0000_0000_0000);
    assert(low == 0x10_0000_0000_0000 * exponent + low % 0x10_0000_0000_0000);
    assert(0 <= exponent < 0x800);
}

} // verus!
