//! What a number looks like when it is written out.

use crate::text;
use crate::text::{push_decimal, with_number};
use vstd::prelude::*;

verus! {

/// The number that a row of decimal digits stands for.
pub open spec fn number(digits: Seq<char>) -> int
    decreases digits.len(),
{
    if digits.len() == 0 {
        0
    } else {
        10 * number(digits.drop_last()) + (digits.last() as int - 48)
    }
}

/// A number is written with the digits 0 to 9, at least one of them, without a leading zero unless it is
/// zero, and they stand for the number.
pub proof fn law_decimal(n: int, i: int)
    requires
        0 <= n,
    ensures
        text::decimal(n).len() > 0,
        0 <= i < text::decimal(n).len() ==> 48 <= text::decimal(n)[i] as int <= 57,
        n > 0 ==> text::decimal(n)[0] as int > 48,
        n == 0 ==> text::decimal(n).len() == 1,
        number(text::decimal(n)) == n,
    decreases n,
{
    let d = text::decimal(n);
    if n < 10 {
        assert(d.drop_last() =~= Seq::<char>::empty());
        assert(number(d.drop_last()) == 0);
    } else {
        law_decimal(n / 10, i);
        assert(d.drop_last() =~= text::decimal(n / 10));
        assert(d.last() == text::digit(n % 10));
    }
}

/// A number that is appended stands behind the text that was there.
pub proof fn law_push_decimal(out: &mut String, n: u64)
    requires
        call_ensures(push_decimal, (out, n), ()),
    ensures
        final(out)@ == old(out)@ + text::decimal(n as int),
{
}

/// A text with a number is the text and behind it the number.
pub proof fn law_with_number(before: &str, n: u64, whole: String)
    requires
        call_ensures(with_number, (before, n), whole),
    ensures
        whole@ == before@ + text::decimal(n as int),
        whole@.take(before@.len() as int) == before@,
        number(whole@.skip(before@.len() as int)) == n,
{
    law_decimal(n as int, 0);
    assert(whole@.take(before@.len() as int) =~= before@);
    assert(whole@.skip(before@.len() as int) =~= text::decimal(n as int));
}

} // verus!
