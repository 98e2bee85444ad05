//! The price curves. Prices and amounts are integers; a curve's `scale` is
//! the number of decimal places of its coefficient, so that a coefficient
//! `k` stands for `k / 10^scale`.
//!
//! With price `p(s)` at supply `s`, the reserve that backs a supply `s` is
//! the integral `R(s)` of `p` from `0` to `s`:
//! - Constant: `p(s) = k`, `R(s) = k * s`;
//! - Linear: `p(s) = k * s`, `R(s) = k * s^2 / 2`;
//! - SquareRoot: `p(s) = k * sqrt(s)`, `R(s) = 2 * k * s^(3/2) / 3`.
//! The ledger keeps a reserve that backs its supply (`backs`); the least
//! such reserve is rounded up. The amounts of a trade are in `trade`.
//! Every product is checked: where one would not fit in a `u128`, the
//! function fails with `ArithmeticOverflow` instead. The square-root
//! curve's products grow with the cube of the supply, so its amounts are
//! the first to reach that bound.

use vstd::prelude::*;
use crate::error::ContractError;
use crate::arith::{
    div_ceil, isqrt, isqrt_ceil, lemma_ten_pow_18, lemma_ten_pow_monotone,
    lemma_ten_pow_positive, mul_checked, ten_pow, ten_pow_u128,
};

verus! {

/// The most decimal places a curve's coefficient may have.
pub const MAX_SCALE: u32 = 18;

/// The decimal places of a spot price.
pub const PRICE_DECIMALS: u32 = 18;

/// The shape of the price curve.
#[derive(Clone, Copy, Debug, PartialEq, Eq, Structural)]
pub enum CurveType {
    Constant { value: u128, scale: u32 },
    Linear { slope: u128, scale: u32 },
    SquareRoot { slope: u128, scale: u32 },
}

impl CurveType {
    pub open spec fn coef(self) -> int {
        match self {
            CurveType::Constant { value, .. } => value as int,
            CurveType::Linear { slope, .. } => slope as int,
            CurveType::SquareRoot { slope, .. } => slope as int,
        }
    }

    pub open spec fn scale_of(self) -> nat {
        match self {
            CurveType::Constant { scale, .. } => scale as nat,
            CurveType::Linear { scale, .. } => scale as nat,
            CurveType::SquareRoot { scale, .. } => scale as nat,
        }
    }

    /// The coefficient is positive and has at most eighteen decimal places.
    pub open spec fn wf(self) -> bool {
        self.coef() > 0 && self.scale_of() <= MAX_SCALE
    }

    /// The divisor that the scale stands for.
    pub open spec fn divisor(self) -> int {
        ten_pow(self.scale_of())
    }

    /// The coefficient in units of `10^-18`.
    pub open spec fn price_factor(self) -> int {
        self.coef() * ten_pow((PRICE_DECIMALS - self.scale_of()) as nat)
    }

    pub fn coef_exec(&self) -> (k: u128)
        ensures
            k == self.coef(),
    {
        match self {
            CurveType::Constant { value, .. } => *value,
            CurveType::Linear { slope, .. } => *slope,
            CurveType::SquareRoot { slope, .. } => *slope,
        }
    }

    pub fn scale_exec(&self) -> (n: u32)
        ensures
            n == self.scale_of(),
    {
        match self {
            CurveType::Constant { scale, .. } => *scale,
            CurveType::Linear { scale, .. } => *scale,
            CurveType::SquareRoot { scale, .. } => *scale,
        }
    }

    /// Whether the parameters are usable.
    pub fn validate(&self) -> (b: bool)
        ensures
            b == self.wf(),
    {
        self.coef_exec() > 0 && self.scale_exec() <= MAX_SCALE
    }
}

/// Reserve `r` backs supply `s`: `R(s) <= r`, in exact arithmetic.
pub open spec fn backs(c: CurveType, s: int, r: int) -> bool {
    let k = c.coef();
    let d = c.divisor();
    match c {
        CurveType::Constant { .. } => k * s <= d * r,
        CurveType::Linear { .. } => k * (s * s) <= 2 * d * r,
        CurveType::SquareRoot { .. } => 4 * (k * k) * (s * s * s) <= 9 * (d * d) * (r * r),
    }
}

/// `r` is the reserve for supply `s`: the least reserve that backs it.
pub open spec fn is_reserve_for(c: CurveType, s: int, r: int) -> bool {
    r >= 0 && backs(c, s, r) && (r == 0 || !backs(c, s, r - 1))
}

/// The square root of a supply is taken to nine decimal places.
pub const ROOT_SCALE: u128 = 1_000_000_000;

/// The square of `ROOT_SCALE`.
pub const ROOT_SCALE_SQUARED: u128 = 1_000_000_000_000_000_000;

/// `r` is the square root of `s` to nine decimal places, rounded down: the
/// greatest `r` with `r * r <= s * 10^18`.
pub open spec fn is_root9(s: int, r: int) -> bool {
    r >= 0 && r * r <= s * ROOT_SCALE_SQUARED && s * ROOT_SCALE_SQUARED < (r + 1) * (r + 1)
}

/// There is one such root at most.
pub proof fn lemma_root9_unique(s: int, r1: int, r2: int)
    requires
        is_root9(s, r1),
        is_root9(s, r2),
    ensures
        r1 == r2,
{
    assert(r1 < r2 + 1 && r2 < r1 + 1) by (nonlinear_arith)
        requires
            r1 >= 0,
            r2 >= 0,
            r1 * r1 < (r2 + 1) * (r2 + 1),
            r2 * r2 < (r1 + 1) * (r1 + 1),
    ;
}

/// `p` is the spot price at supply `s`, in units of `10^-18`, rounded down
/// (on the square-root curve, from the root to nine decimal places).
pub open spec fn is_spot_price(c: CurveType, s: int, p: int) -> bool {
    let f = c.price_factor();
    match c {
        CurveType::Constant { .. } => p == f,
        CurveType::Linear { .. } => p == f * s,
        CurveType::SquareRoot { .. } => exists|r: int| is_root9(s, r) && p == f * r / ROOT_SCALE as int,
    }
}

/// The spot price at supply `s` fits in a `u128`.
pub open spec fn spot_price_fits(c: CurveType, s: int) -> bool {
    let f = c.price_factor();
    match c {
        CurveType::Constant { .. } => f <= u128::MAX,
        CurveType::Linear { .. } => f * s <= u128::MAX,
        CurveType::SquareRoot { .. } => s * ROOT_SCALE_SQUARED <= u128::MAX && forall|r: int|
            is_root9(s, r) ==> f * r <= u128::MAX,
    }
}

/// The products that give the reserve for supply `s` fit in a `u128`.
pub open spec fn reserve_fits(c: CurveType, s: int) -> bool {
    let k = c.coef();
    match c {
        CurveType::Constant { .. } => k * s <= u128::MAX,
        CurveType::Linear { .. } => k * (s * s) <= u128::MAX,
        CurveType::SquareRoot { .. } => 4 * (k * k) * (s * s * s) <= u128::MAX,
    }
}

/// The spot price never falls as the supply grows, on every curve.
pub proof fn lemma_spot_price_monotone(c: CurveType, s1: int, s2: int, p1: int, p2: int)
    requires
        c.wf(),
        0 <= s1 <= s2,
        is_spot_price(c, s1, p1),
        is_spot_price(c, s2, p2),
    ensures
        p1 <= p2,
{
    lemma_scale_bounds(c);
    let f = c.price_factor();
    assert(f >= 0) by (nonlinear_arith)
        requires
            f == c.coef() * ten_pow((PRICE_DECIMALS - c.scale_of()) as nat),
            c.coef() > 0,
            ten_pow((PRICE_DECIMALS - c.scale_of()) as nat) >= 1,
    ;
    match c {
        CurveType::Constant { .. } => {},
        CurveType::Linear { .. } => {
            assert(f * s1 <= f * s2) by (nonlinear_arith)
                requires
                    f >= 0,
                    s1 <= s2,
            ;
        },
        CurveType::SquareRoot { .. } => {
            let r1 = choose|r: int| is_root9(s1, r) && p1 == f * r / ROOT_SCALE as int;
            let r2 = choose|r: int| is_root9(s2, r) && p2 == f * r / ROOT_SCALE as int;
            assert(f * r1 <= f * r2) by (nonlinear_arith)
                requires
                    f >= 0,
                    0 <= s1 <= s2,
                    r1 >= 0,
                    r2 >= 0,
                    r1 * r1 <= s1 * ROOT_SCALE_SQUARED,
                    s2 * ROOT_SCALE_SQUARED < (r2 + 1) * (r2 + 1),
            ;
            vstd::arithmetic::div_mod::lemma_div_is_ordered(f * r1, f * r2, ROOT_SCALE as int);
        },
    }
}

/// A reserve that backs a supply backs it still once it grows.
pub proof fn lemma_backs_more_reserve(c: CurveType, s: int, r1: int, r2: int)
    requires
        c.wf(),
        s >= 0,
        0 <= r1 <= r2,
        backs(c, s, r1),
    ensures
        backs(c, s, r2),
{
    lemma_scale_bounds(c);
    let d = c.divisor();
    assert(d * r1 <= d * r2 && 2 * d * r1 <= 2 * d * r2 && 9 * (d * d) * (r1 * r1) <= 9 * (d * d) * (
    r2 * r2)) by (nonlinear_arith)
        requires
            d >= 1,
            0 <= r1 <= r2,
    ;
}

/// The reserve for the empty supply can always be computed.
pub proof fn lemma_reserve_fits_zero(c: CurveType)
    ensures
        reserve_fits(c, 0),
{
    let k = c.coef();
    assert(k * 0 == 0 && k * (0 * 0) == 0 && 4 * (k * k) * (0 * 0 * 0) == 0) by (nonlinear_arith);
}

/// Where the reserve for a supply can be computed, so can the reserve for
/// any smaller supply.
pub proof fn lemma_reserve_fits_less(c: CurveType, s1: int, s2: int)
    requires
        c.wf(),
        0 <= s1 <= s2,
        reserve_fits(c, s2),
    ensures
        reserve_fits(c, s1),
{
    let k = c.coef();
    assert(k * s1 <= k * s2 && k * (s1 * s1) <= k * (s2 * s2) && 4 * (k * k) * (s1 * s1 * s1) <= 4 * (
    k * k) * (s2 * s2 * s2)) by (nonlinear_arith)
        requires
            k >= 1,
            0 <= s1 <= s2,
    ;
}

/// Every reserve backs the empty supply.
pub proof fn lemma_backs_zero_supply(c: CurveType, r: int)
    requires
        c.wf(),
        r >= 0,
    ensures
        backs(c, 0, r),
{
    lemma_scale_bounds(c);
    let d = c.divisor();
    let k = c.coef();
    assert(d * r >= 0 && 9 * (d * d) * (r * r) >= 0 && k * 0 == 0 && k * (0 * 0) == 0 && 4 * (k * k)
        * (0 * 0 * 0) == 0) by (nonlinear_arith)
        requires
            d >= 1,
            r >= 0,
    ;
}

proof fn lemma_mul_grows(a: int, b: int)
    requires
        a >= 0,
        b >= 1,
    ensures
        a * b >= a,
{
    assert(a * b >= a) by (nonlinear_arith)
        requires
            a >= 0,
            b >= 1,
    ;
}

proof fn lemma_scale_bounds(c: CurveType)
    requires
        c.wf(),
    ensures
        1 <= c.divisor() <= 1_000_000_000_000_000_000,
        1 <= ten_pow((PRICE_DECIMALS - c.scale_of()) as nat) <= 1_000_000_000_000_000_000,
{
    lemma_ten_pow_positive(c.scale_of());
    lemma_ten_pow_monotone(c.scale_of(), 18);
    lemma_ten_pow_positive((PRICE_DECIMALS - c.scale_of()) as nat);
    lemma_ten_pow_monotone((PRICE_DECIMALS - c.scale_of()) as nat, 18);
    lemma_ten_pow_18();
}

/// The spot price at `supply`, in units of `10^-18`; fails with
/// `ArithmeticOverflow` exactly where it does not fit in a `u128`.
pub fn spot_price(curve: &CurveType, supply: u128) -> (r: Result<u128, ContractError>)
    requires
        curve.wf(),
    ensures
        r is Ok <==> spot_price_fits(*curve, supply as int),
        r matches Ok(p) ==> is_spot_price(*curve, supply as int, p as int),
        r matches Err(e) ==> e == ContractError::ArithmeticOverflow,
{
    let k = curve.coef_exec();
    proof {
        lemma_scale_bounds(*curve);
    }
    let e = ten_pow_u128(PRICE_DECIMALS - curve.scale_exec());
    match curve {
        CurveType::Constant { .. } => match mul_checked(k, e) {
            Some(f) => Ok(f),
            None => Err(ContractError::ArithmeticOverflow),
        },
        CurveType::Linear { .. } => {
            if supply == 0 {
                proof {
                    assert(k * e * 0 == 0) by (nonlinear_arith);
                }
                return Ok(0);
            }
            let f = match mul_checked(k, e) {
                Some(f) => f,
                None => {
                    proof {
                        lemma_mul_grows(k * e, supply as int);
                    }
                    return Err(ContractError::ArithmeticOverflow);
                },
            };
            match mul_checked(f, supply) {
                Some(p) => Ok(p),
                None => Err(ContractError::ArithmeticOverflow),
            }
        },
        CurveType::SquareRoot { .. } => {
            let x = match mul_checked(supply, ROOT_SCALE_SQUARED) {
                Some(x) => x,
                None => return Err(ContractError::ArithmeticOverflow),
            };
            let root = isqrt(x);
            proof {
                assert(is_root9(supply as int, root as int));
                assert forall|r: int| is_root9(supply as int, r) implies r == root by {
                    lemma_root9_unique(supply as int, r, root as int);
                }
            }
            let f = match mul_checked(k, e) {
                Some(f) => f,
                None => {
                    if root == 0 {
                        proof {
                            assert(k * e * 0 == 0) by (nonlinear_arith);
                        }
                        return Ok(0);
                    }
                    proof {
                        lemma_mul_grows(k * e, root as int);
                    }
                    return Err(ContractError::ArithmeticOverflow);
                },
            };
            match mul_checked(f, root) {
                Some(fr) => Ok(fr / ROOT_SCALE),
                None => Err(ContractError::ArithmeticOverflow),
            }
        },
    }
}

/// The reserve that backs `supply`: the least `r` with `R(supply) <= r`.
/// Fails with `ArithmeticOverflow` exactly where the products it takes
/// do not fit in a `u128`.
pub fn reserve_for_supply(curve: &CurveType, supply: u128) -> (r: Result<u128, ContractError>)
    requires
        curve.wf(),
    ensures
        r is Ok <==> reserve_fits(*curve, supply as int),
        r matches Ok(v) ==> is_reserve_for(*curve, supply as int, v as int),
        r matches Err(e) ==> e == ContractError::ArithmeticOverflow,
{
    let k = curve.coef_exec();
    proof {
        lemma_scale_bounds(*curve);
    }
    let d = ten_pow_u128(curve.scale_exec());
    let s = supply;
    if s == 0 {
        proof {
            assert(backs(*curve, 0, 0));
        }
        return Ok(0);
    }
    match curve {
        CurveType::Constant { .. } => {
            let ks = match mul_checked(k, s) {
                Some(v) => v,
                None => return Err(ContractError::ArithmeticOverflow),
            };
            let r = div_ceil(ks, d);
            proof {
                assert(d * r == r * d && d * (r - 1) == (r - 1) * d) by (nonlinear_arith);
            }
            Ok(r)
        },
        CurveType::Linear { .. } => {
            let ks = match mul_checked(k, s) {
                Some(v) => v,
                None => {
                    proof {
                        assert(k * (s * s) >= k * s) by (nonlinear_arith)
                            requires
                                k >= 1,
                                s >= 1,
                        ;
                    }
                    return Err(ContractError::ArithmeticOverflow);
                },
            };
            proof {
                assert(ks * s == k * (s * s)) by (nonlinear_arith)
                    requires
                        ks == k * s,
                ;
            }
            let kss = match mul_checked(ks, s) {
                Some(v) => v,
                None => return Err(ContractError::ArithmeticOverflow),
            };
            let r = div_ceil(kss, 2 * d);
            proof {
                assert(2 * d * r == r * (2 * d) && 2 * d * (r - 1) == (r - 1) * (2 * d))
                    by (nonlinear_arith);
            }
            Ok(r)
        },
        CurveType::SquareRoot { .. } => {
            let r = root_reserve(k, d, s);
            proof {
                lemma_regroup(k as int, s as int);
            }
            r
        },
    }
}

/// The least `r` with `4 k^2 s^3 <= 9 d^2 r^2`, where that product fits.
fn root_reserve(k: u128, d: u128, s: u128) -> (r: Result<u128, ContractError>)
    requires
        k >= 1,
        s >= 1,
        1 <= d <= 1_000_000_000_000_000_000,
    ensures
        r is Ok <==> 4 * (k * k * s * s * s) <= u128::MAX,
        r matches Ok(v) ==> 4 * (k * k) * (s * s * s) <= 9 * (d * d) * (v * v) && (v == 0 || !(
        4 * (k * k) * (s * s * s) <= 9 * (d * d) * ((v - 1) * (v - 1)))),
        r matches Err(e) ==> e == ContractError::ArithmeticOverflow,
{
    let x = match product_of_five(k, k, s, s, s) {
        Some(p) => {
            let four: u128 = 4;
            match mul_checked(four, p) {
                Some(x) => x,
                None => return Err(ContractError::ArithmeticOverflow),
            }
        },
        None => {
            proof {
                lemma_mul_grows(k * k * s * s * s, 4);
            }
            return Err(ContractError::ArithmeticOverflow);
        },
    };
    proof {
        lemma_regroup(k as int, s as int);
    }
    let t = isqrt_ceil(x);
    let r = div_ceil(t, 3 * d);
    proof {
        let dd = 3 * d;
        assert(r * dd >= t);
        lemma_square_le(t as int, r * dd);
        assert(9 * (d * d) * (r * r) == (r * dd) * (r * dd)) by (nonlinear_arith)
            requires
                dd == 3 * d,
        ;
        if r > 0 {
            assert((r - 1) * dd < t);
            assert((r - 1) * dd <= t - 1);
            lemma_square_le((r - 1) * dd, t - 1);
            assert(9 * (d * d) * ((r - 1) * (r - 1)) == ((r - 1) * dd) * ((r - 1) * dd))
                by (nonlinear_arith)
                requires
                    dd == 3 * d,
            ;
        }
    }
    Ok(r)
}

proof fn lemma_regroup(k: int, s: int)
    ensures
        4 * (k * k * s * s * s) == 4 * (k * k) * (s * s * s),
{
    assert(4 * (k * k * s * s * s) == 4 * (k * k) * (s * s * s)) by (nonlinear_arith);
}

proof fn lemma_square_le(a: int, b: int)
    requires
        0 <= a <= b,
    ensures
        a * a <= b * b,
{
    assert(a * a <= b * b) by (nonlinear_arith)
        requires
            0 <= a <= b,
    ;
}

/// The product of five positive factors, or `None` where it does not
/// fit in a `u128`.
fn product_of_five(f1: u128, f2: u128, f3: u128, f4: u128, f5: u128) -> (r: Option<u128>)
    requires
        f1 >= 1,
        f2 >= 1,
        f3 >= 1,
        f4 >= 1,
        f5 >= 1,
    ensures
        r is None <==> f1 * f2 * f3 * f4 * f5 > u128::MAX,
        r matches Some(v) ==> v == f1 * f2 * f3 * f4 * f5,
{
    let ab = match mul_checked(f1, f2) {
        Some(v) => v,
        None => {
            proof {
                lemma_mul_grows(f1 * f2, f3 as int);
                lemma_mul_grows(f1 * f2 * f3, f4 as int);
                lemma_mul_grows(f1 * f2 * f3 * f4, f5 as int);
            }
            return None;
        },
    };
    let abc = match mul_checked(ab, f3) {
        Some(v) => v,
        None => {
            proof {
                lemma_mul_grows(f1 * f2 * f3, f4 as int);
                lemma_mul_grows(f1 * f2 * f3 * f4, f5 as int);
            }
            return None;
        },
    };
    let abcd = match mul_checked(abc, f4) {
        Some(v) => v,
        None => {
            proof {
                lemma_mul_grows(f1 * f2 * f3 * f4, f5 as int);
            }
            return None;
        },
    };
    mul_checked(abcd, f5)
}

} // verus!
