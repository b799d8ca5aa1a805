//! Reading decimal numbers from ASCII digits.

use crate::error::{format_error, Error};
use vstd::prelude::*;

verus! {

/// Whether `b` is one of the ASCII digits `0` to `9`.
pub open spec fn is_digit(b: u8) -> bool {
    0x30 <= b <= 0x39
}

/// Whether `s` holds at least one byte and nothing but digits.
pub open spec fn is_number(s: Seq<u8>) -> bool {
    s.len() > 0 && forall|i: int| 0 <= i < s.len() ==> is_digit(#[trigger] s[i])
}

/// The number that the digits of `s` write in base ten.
pub open spec fn decimal(s: Seq<u8>) -> nat
    decreases s.len(),
{
    if s.len() == 0 {
        0
    } else {
        (10 * decimal(s.drop_last()) + (s.last() - 0x30)) as nat
    }
}

/// A number written with `s.len()` digits is below that power of ten; here
/// for the lengths that [`atou16`] takes.
pub proof fn lemma_decimal_bound(s: Seq<u8>)
    requires
        s.len() <= 4,
        forall|i: int| 0 <= i < s.len() ==> is_digit(#[trigger] s[i]),
    ensures
        s.len() == 0 ==> decimal(s) == 0,
        s.len() == 1 ==> decimal(s) <= 9,
        s.len() == 2 ==> decimal(s) <= 99,
        s.len() == 3 ==> decimal(s) <= 999,
        s.len() == 4 ==> decimal(s) <= 9999,
    decreases s.len(),
{
    if s.len() > 0 {
        lemma_decimal_bound(s.drop_last());
    }
}

/// Reads a number of up to four decimal digits.  An empty slice and a byte
/// that is no digit are refused.
pub fn atou16(bytes: &[u8]) -> (r: Result<u16, Error>)
    requires
        bytes.len() <= 4,
    ensures
        is_number(bytes@) ==> r == Ok::<u16, Error>(decimal(bytes@) as u16),
        is_number(bytes@) ==> decimal(bytes@) <= 9999,
        !is_number(bytes@) ==> (r matches Err(e) && e@ == format_error("Not a number")),
{
    if bytes.len() == 0 {
        return Err(Error::InvalidFormat("Not a number"));
    }
    let mut n: u16 = 0;
    let mut i: usize = 0;
    while i < bytes.len()
        invariant
            i <= bytes.len() <= 4,
            forall|k: int| 0 <= k < i ==> is_digit(#[trigger] bytes@[k]),
            n == decimal(bytes@.subrange(0, i as int)),
        decreases bytes.len() - i,
    {
        let c: u8 = bytes[i];
        if c < 0x30 || c > 0x39 {
            return Err(Error::InvalidFormat("Not a number"));
        }
        proof {
            lemma_decimal_bound(bytes@.subrange(0, i as int));
            assert(bytes@.subrange(0, i + 1).drop_last() =~= bytes@.subrange(0, i as int));
        }
        n = n * 10 + (c - 0x30) as u16;
        i += 1;
    }
    proof {
        assert(bytes@.subrange(0, i as int) =~= bytes@);
        lemma_decimal_bound(bytes@);
    }
    Ok(n)
}

} // verus!
