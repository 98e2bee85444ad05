//! Fractions between zero and one, held with eighteen decimal places.

use vstd::prelude::*;

verus! {

/// The atomics of the ratio one.
pub const RATIO_ONE: u128 = 1_000_000_000_000_000_000;

/// A fraction `atomics / 10^18`.
#[derive(Clone, Copy, Debug, PartialEq, Eq, Structural)]
pub struct Ratio {
    pub atomics: u128,
}

/// The part of `amount` that `ratio` takes, rounded down.
pub open spec fn portion(amount: int, ratio: Ratio) -> int {
    amount * ratio.atomics / RATIO_ONE as int
}

impl Ratio {
    /// A ratio lies in `[0, 1]`.
    pub open spec fn wf(self) -> bool {
        self.atomics <= RATIO_ONE
    }

    pub fn zero() -> (r: Ratio)
        ensures
            r.atomics == 0,
    {
        Ratio { atomics: 0 }
    }

    pub fn one() -> (r: Ratio)
        ensures
            r.atomics == RATIO_ONE,
    {
        Ratio { atomics: RATIO_ONE }
    }

    /// `p` percent.
    pub fn percent(p: u64) -> (r: Ratio)
        requires
            p <= 100,
        ensures
            r.atomics == p * 10_000_000_000_000_000,
            r.wf(),
    {
        Ratio { atomics: p as u128 * 10_000_000_000_000_000 }
    }

    pub fn from_atomics(atomics: u128) -> (r: Ratio)
        ensures
            r.atomics == atomics,
    {
        Ratio { atomics }
    }

    pub fn is_valid(&self) -> (b: bool)
        ensures
            b == self.wf(),
    {
        self.atomics <= RATIO_ONE
    }
}

/// `amount * ratio`, rounded down; it never exceeds `amount`.
pub fn apply_ratio(amount: u128, ratio: Ratio) -> (r: u128)
    requires
        ratio.wf(),
    ensures
        r == portion(amount as int, ratio),
        r <= amount,
{
    let n = ratio.atomics;
    let q = amount / RATIO_ONE;
    let rem = amount % RATIO_ONE;
    proof {
        let d = RATIO_ONE as int;
        assert(rem * n <= rem * d) by (nonlinear_arith)
            requires
                n <= d,
                rem >= 0,
        ;
        assert(rem * d < d * d) by (nonlinear_arith)
            requires
                rem < d,
                d > 0,
        ;
    }
    let low = rem * n / RATIO_ONE;
    proof {
        let d = RATIO_ONE as int;
        vstd::arithmetic::div_mod::lemma_fundamental_div_mod(amount as int, d);
        assert(rem * n <= rem * d) by (nonlinear_arith)
            requires
                n <= d,
                rem >= 0,
        ;
        vstd::arithmetic::div_mod::lemma_fundamental_div_mod(rem * n, d);
        let rt = (rem * n) % d;
        vstd::arithmetic::div_mod::lemma_mod_pos_bound(rem * n, d);
        assert(amount * n == (q * n + low) * d + rt) by (nonlinear_arith)
            requires
                amount == d * q + rem,
                rem * n == d * low + rt,
        ;
        vstd::arithmetic::div_mod::lemma_fundamental_div_mod_converse(
            amount * n,
            d,
            q * n + low,
            rt,
        );
        assert(q * n + low <= amount) by (nonlinear_arith)
            requires
                amount == d * q + rem,
                n <= d,
                q >= 0,
                low * d <= rem * n,
                rem * n <= rem * d,
                d > 0,
                rem >= 0,
                low >= 0,
        ;
    }
    q * n + low
}

} // verus!
