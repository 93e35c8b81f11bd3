//! Decimal numerals.

use crate::ascii::{is_digit, ZERO};
use vstd::prelude::*;

verus! {

/// The ASCII digit for `d`, for `d` below ten.
pub open spec fn digit(d: nat) -> u8 {
    (ZERO + d) as u8
}

/// The decimal numeral of `n`, without leading zeros.
pub open spec fn decimal(n: nat) -> Seq<u8>
    decreases n,
{
    if n < 10 {
        seq![digit(n)]
    } else {
        decimal(n / 10).push(digit(n % 10))
    }
}

/// Every byte of `s` is a decimal digit.
pub open spec fn all_digits(s: Seq<u8>) -> bool {
    forall|i: int| 0 <= i < s.len() ==> is_digit(#[trigger] s[i])
}

/// The number that the digits `s` spell, the last digit counting least.
pub open spec fn digits_value(s: Seq<u8>) -> nat
    decreases s.len(),
{
    if s.len() == 0 {
        0
    } else {
        (digits_value(s.drop_last()) * 10 + (s.last() - ZERO)) as nat
    }
}

/// The number that `s` spells, where `s` is one or more decimal digits.
pub open spec fn parse_decimal(s: Seq<u8>) -> Option<nat> {
    if s.len() > 0 && all_digits(s) {
        Some(digits_value(s))
    } else {
        None
    }
}

/// A numeral is made of digits, at least one, and spells its number:
/// parsing undoes rendering.
pub proof fn lemma_decimal_round_trip(n: nat)
    ensures
        decimal(n).len() > 0,
        all_digits(decimal(n)),
        digits_value(decimal(n)) == n,
        parse_decimal(decimal(n)) == Some(n),
    decreases n,
{
    if n >= 10 {
        lemma_decimal_round_trip(n / 10);
        let head = decimal(n / 10);
        let whole = head.push(digit(n % 10));
        assert(whole.drop_last() =~= head);
        assert(whole.last() == digit(n % 10));
        assert(digits_value(whole) == digits_value(head) * 10 + (whole.last() - ZERO));
        assert forall|i: int| 0 <= i < whole.len() implies is_digit(#[trigger] whole[i]) by {
            if i < head.len() {
                assert(is_digit(head[i]));
            }
        }
    } else {
        let whole = seq![digit(n)];
        assert(digits_value(whole.drop_last()) == 0);
        assert(digits_value(whole) == 0 * 10 + (whole.last() - ZERO));
    }
}

/// A number below ten takes one digit, a larger one below a hundred two.
pub proof fn lemma_decimal_len(n: nat)
    requires
        n < 100,
    ensures
        decimal(n).len() == if n < 10 { 1nat } else { 2nat },
{
    if n >= 10 {
        assert(decimal(n / 10).len() == 1);
    }
}

/// Writes `n` as a decimal numeral.
pub fn render_decimal(n: u32) -> (out: Vec<u8>)
    ensures
        out@ == decimal(n as nat),
    decreases n,
{
    if n < 10 {
        let mut out: Vec<u8> = Vec::new();
        out.push(ZERO + n as u8);
        assert(out@ =~= seq![digit(n as nat)]);
        out
    } else {
        let mut out: Vec<u8> = render_decimal(n / 10);
        out.push(ZERO + (n % 10) as u8);
        out
    }
}

} // verus!
