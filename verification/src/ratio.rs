//! Exact non-negative fractions.

use vstd::prelude::*;

verus! {

/// The fraction `num / den`, held as it was formed, without reducing.
///
/// Two values of this type are `==` when they have the same numerator and
/// the same denominator.
#[derive(Debug, Clone, Copy, PartialEq, Eq, Structural)]
pub struct Ratio {
    pub num: u128,
    pub den: u128,
}

impl Ratio {
    /// Whether the fraction has a value: its denominator is not zero.
    pub open spec fn is_valid(self) -> bool {
        self.den > 0
    }

    /// Whether the fraction is worth nothing.
    pub open spec fn is_zero(self) -> bool {
        self.num == 0
    }

    /// The whole number `n` as a fraction.
    pub open spec fn of_whole(n: nat) -> Ratio {
        Ratio { num: n as u128, den: 1 }
    }

    /// The whole number `n` as a fraction.
    pub fn whole(n: u64) -> (r: Ratio)
        ensures
            r == Ratio::of_whole(n as nat),
            r.is_valid(),
    {
        Ratio { num: n as u128, den: 1 }
    }
}

} // verus!
