//! Decimal numerals (`12`, `29.7`) read exactly into whole counts of a
//! smaller unit.

use vstd::prelude::*;
use vstd::arithmetic::div_mod::{lemma_div_denominator, lemma_hoist_over_denominator};
use vstd::slice::slice_subrange;
use crate::text::{char_is_digit, find_first, first_index, is_digit, lemma_first_index};

verus! {

/// Ten to the power `n`.
pub open spec fn pow10(n: nat) -> nat
    decreases n,
{
    if n == 0 {
        1
    } else {
        10 * pow10((n - 1) as nat)
    }
}

/// The value of one decimal digit.
pub open spec fn digit_of(c: char) -> nat {
    (c as int - '0' as int) as nat
}

/// Whether `s` holds decimal digits only.
pub open spec fn all_digits(s: Seq<char>) -> bool {
    forall|i: int| 0 <= i < s.len() ==> is_digit(#[trigger] s[i])
}

/// The number that the digits of `s` write in base ten; zero for no digits.
pub open spec fn digits_value(s: Seq<char>) -> nat
    decreases s.len(),
{
    if s.len() == 0 {
        0
    } else {
        digits_value(s.drop_last()) * 10 + digit_of(s.last())
    }
}

/// Whether `s` is a numeral: one or more digits, optionally followed by a
/// point and one or more digits.
pub open spec fn is_numeral(s: Seq<char>) -> bool {
    let dot = first_index(s, '.');
    if dot == s.len() {
        s.len() > 0 && all_digits(s)
    } else {
        &&& 0 < dot
        &&& dot + 1 < s.len()
        &&& all_digits(s.take(dot))
        &&& all_digits(s.skip(dot + 1))
    }
}

/// The digits of a numeral before its point.
pub open spec fn whole_part(s: Seq<char>) -> Seq<char> {
    s.take(first_index(s, '.'))
}

/// The digits of a numeral behind its point; none when it has no point.
pub open spec fn fraction_part(s: Seq<char>) -> Seq<char> {
    let dot = first_index(s, '.');
    if dot == s.len() {
        Seq::empty()
    } else {
        s.skip(dot + 1)
    }
}

/// The numeral `s`, as a quantity of a unit that is `per_unit` smaller units
/// long, counted in whole smaller units: the numeral's value times
/// `per_unit`, rounded down.
pub open spec fn numeral_units(s: Seq<char>, per_unit: nat) -> nat {
    let whole = digits_value(whole_part(s));
    let fraction = fraction_part(s);
    (whole * per_unit + digits_value(fraction) * per_unit / pow10(fraction.len())) as nat
}

/// Powers of ten are positive.
pub proof fn lemma_pow10_positive(n: nat)
    ensures
        pow10(n) > 0,
    decreases n,
{
    if n > 0 {
        lemma_pow10_positive((n - 1) as nat);
    }
}

/// Putting a digit in front adds that digit times the power of ten of what
/// follows.
pub proof fn lemma_digits_value_prepend(d: char, s: Seq<char>)
    ensures
        digits_value(seq![d] + s) == digit_of(d) * pow10(s.len()) + digits_value(s),
    decreases s.len(),
{
    let whole = seq![d] + s;
    assert(whole.len() == s.len() + 1);
    assert(digits_value(whole) == digits_value(whole.drop_last()) * 10 + digit_of(whole.last()));
    if s.len() == 0 {
        assert(whole.drop_last() =~= Seq::<char>::empty());
        assert(digits_value(whole.drop_last()) == 0);
        assert(whole.last() == d);
        assert(pow10(0) == 1);
        assert(digits_value(s) == 0);
    } else {
        let init = s.drop_last();
        assert(whole.drop_last() =~= seq![d] + init);
        assert(whole.last() == s.last());
        lemma_digits_value_prepend(d, init);
        assert(pow10(s.len()) == 10 * pow10(init.len()));
        assert(digit_of(d) * pow10(s.len()) == (digit_of(d) * pow10(init.len())) * 10)
            by (nonlinear_arith)
            requires
                pow10(s.len()) == 10 * pow10(init.len()),
        ;
    }
}

/// A digit string is worth at least as much as any of its beginnings.
pub proof fn lemma_digits_value_grows(s: Seq<char>, n: int)
    requires
        0 <= n <= s.len(),
    ensures
        digits_value(s.take(n)) <= digits_value(s),
    decreases s.len() - n,
{
    if n < s.len() {
        lemma_digits_value_grows(s, n + 1);
        assert(s.take(n + 1).drop_last() =~= s.take(n));
    } else {
        assert(s.take(n) =~= s);
    }
}

/// Rounding down after each digit gives the same as rounding down once: the
/// step on which reading a fraction from its last digit backwards rests.
proof fn lemma_fraction_step(d: nat, tail_value: nat, tail_power: nat, per_unit: nat)
    requires
        tail_power > 0,
    ensures
        (d * per_unit + tail_value * per_unit / tail_power) / 10 == ((d * tail_power + tail_value)
            * per_unit) / (10 * tail_power),
{
    let x = (tail_value * per_unit) as int;
    let j = (d * per_unit) as int;
    let p = tail_power as int;
    lemma_hoist_over_denominator(x, j, tail_power);
    assert(x / p + j == (x + j * p) / p);
    lemma_div_denominator(x + j * p, p, 10);
    assert(((x + j * p) / p) / 10 == (x + j * p) / (p * 10));
    assert(x + j * p == (d * tail_power + tail_value) * per_unit) by (nonlinear_arith)
        requires
            x == tail_value * per_unit,
            j == d * per_unit,
            p == tail_power,
    ;
}

/// Whether `s` holds decimal digits only.
fn only_digits(s: &[char]) -> (r: bool)
    ensures
        r == all_digits(s@),
{
    let mut i: usize = 0;
    while i < s.len()
        invariant
            i <= s.len(),
            forall|j: int| 0 <= j < i ==> is_digit(#[trigger] s@[j]),
        decreases s.len() - i,
    {
        if !char_is_digit(s[i]) {
            return false;
        }
        i += 1;
    }
    true
}

/// Whether `s` is a numeral.
pub fn check_numeral(s: &[char]) -> (r: bool)
    ensures
        r == is_numeral(s@),
{
    let n = s.len();
    let dot = find_first(s, '.');
    proof {
        lemma_first_index(s@, '.', 0);
    }
    if dot == n {
        n > 0 && only_digits(s)
    } else {
        dot > 0 && dot + 1 < n && only_digits(slice_subrange(s, 0, dot)) && only_digits(
            slice_subrange(s, dot + 1, n),
        )
    }
}

/// The value of the digit `c`.
fn digit_value(c: char) -> (r: u64)
    requires
        is_digit(c),
    ensures
        r == digit_of(c),
        r <= 9,
{
    ((c as u8) - 48) as u64
}

/// The digits `s`, read as a whole number of units, in smaller units; `None`
/// when that exceeds `u64::MAX`.
fn whole_units(s: &[char], per_unit: u64) -> (r: Option<u64>)
    requires
        all_digits(s@),
        per_unit > 0,
    ensures
        match r {
            Some(v) => v == digits_value(s@) * per_unit,
            None => digits_value(s@) * per_unit > u64::MAX,
        },
{
    let limit: u64 = u64::MAX / per_unit;
    let mut value: u64 = 0;
    let mut i: usize = 0;
    while i < s.len()
        invariant
            i <= s.len(),
            all_digits(s@),
            per_unit > 0,
            limit == u64::MAX / per_unit,
            value == digits_value(s@.take(i as int)),
            value <= limit,
        decreases s.len() - i,
    {
        let d = digit_value(s[i]);
        proof {
            assert(s@.take(i + 1).drop_last() =~= s@.take(i as int));
            lemma_digits_value_grows(s@, i + 1);
        }
        let next: u128 = (value as u128) * 10 + (d as u128);
        if next > limit as u128 {
            proof {
                assert(digits_value(s@) * per_unit > u64::MAX) by (nonlinear_arith)
                    requires
                        digits_value(s@) >= next,
                        next > limit,
                        limit == u64::MAX / per_unit,
                        per_unit > 0,
                ;
            }
            return None;
        }
        value = next as u64;
        i += 1;
    }
    proof {
        assert(s@.take(s.len() as int) =~= s@);
        assert(value * per_unit <= u64::MAX) by (nonlinear_arith)
            requires
                value <= limit,
                limit == u64::MAX / per_unit,
                per_unit > 0,
        ;
    }
    Some(value * per_unit)
}

/// The digits `s`, read as the fraction of a unit that they write behind a
/// point, in smaller units, rounded down.
fn fraction_units(s: &[char], per_unit: u64) -> (r: u64)
    requires
        all_digits(s@),
        per_unit > 0,
    ensures
        r == digits_value(s@) * (per_unit as nat) / pow10(s@.len()),
        r < per_unit,
{
    let n = s.len();
    let mut acc: u64 = 0;
    let mut i: usize = n;
    proof {
        assert(s@.skip(n as int) =~= Seq::<char>::empty());
        assert(digits_value(s@.skip(n as int)) == 0);
        assert(pow10(0) == 1);
        assert(0 * (per_unit as nat) / 1 == 0);
    }
    while i > 0
        invariant
            n == s.len(),
            i <= n,
            all_digits(s@),
            per_unit > 0,
            acc == digits_value(s@.skip(i as int)) * (per_unit as nat) / pow10((n - i) as nat),
            acc < per_unit,
        decreases i,
    {
        i -= 1;
        let d = digit_value(s[i]);
        let ghost tail = s@.skip(i + 1);
        proof {
            assert(s@.skip(i as int) =~= seq![s@[i as int]] + tail);
            lemma_digits_value_prepend(s@[i as int], tail);
            lemma_pow10_positive(tail.len());
            lemma_fraction_step(d as nat, digits_value(tail), pow10(tail.len()), per_unit as nat);
            assert(pow10((n - i) as nat) == 10 * pow10(tail.len()));
        }
        assert(d * per_unit <= 9 * u64::MAX) by (nonlinear_arith)
            requires
                d <= 9,
                per_unit <= u64::MAX,
        ;
        let sum: u128 = (d as u128) * (per_unit as u128) + (acc as u128);
        assert(sum / 10 < per_unit) by (nonlinear_arith)
            requires
                sum == d * per_unit + acc,
                d <= 9,
                acc < per_unit,
        ;
        acc = (sum / 10) as u64;
    }
    proof {
        assert(s@.skip(0) =~= s@);
    }
    acc
}

/// Reads the numeral `s` as a quantity of a unit that is `per_unit` smaller
/// units long, in whole smaller units, rounded down; `None` when the
/// quantity exceeds `u64::MAX` smaller units.
pub fn numeral_to_units(s: &[char], per_unit: u64) -> (r: Option<u64>)
    requires
        is_numeral(s@),
        per_unit > 0,
    ensures
        match r {
            Some(v) => v == numeral_units(s@, per_unit as nat),
            None => numeral_units(s@, per_unit as nat) > u64::MAX,
        },
{
    let n = s.len();
    let dot = find_first(s, '.');
    let whole_digits = slice_subrange(s, 0, dot);
    proof {
        lemma_first_index(s@, '.', 0);
        assert(whole_digits@ == whole_part(s@));
        if dot == n {
            assert(s@.take(dot as int) =~= s@);
        }
    }
    let fraction: u64 = if dot == n {
        proof {
            assert(pow10(0) == 1);
            assert(digits_value(Seq::<char>::empty()) == 0);
            assert(0 * (per_unit as nat) / 1 == 0);
        }
        0
    } else {
        fraction_units(slice_subrange(s, dot + 1, n), per_unit)
    };
    assert(fraction == digits_value(fraction_part(s@)) * (per_unit as nat) / pow10(
        fraction_part(s@).len(),
    ));
    match whole_units(whole_digits, per_unit) {
        None => None,
        Some(whole) => whole.checked_add(fraction),
    }
}

} // verus!
