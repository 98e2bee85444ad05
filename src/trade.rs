//! The amounts of a trade on the curve, from the exact integral `R` (see
//! `curve`): a payment `p` at supply `s` mints the most `m` with
//! `R(s + m) - R(s) <= p` (the mint cost rounded up), and burning `a` at
//! supply `s` releases `floor(R(s) - R(s - a))` (the proceeds rounded
//! down). So rounding never moves value from the pool to a trader.
//!
//! On the square-root curve `R` holds `s^(3/2)`; the comparisons are made
//! on squares, so that no root appears in them.

use vstd::prelude::*;
use crate::arith::{lemma_ten_pow_18, lemma_ten_pow_monotone, lemma_ten_pow_positive, isqrt, mul_checked, ten_pow_u128};
use crate::curve::{backs, CurveType};
use crate::error::ContractError;

verus! {

/// `sqrt(y) - sqrt(x) <= c`, for `x, y, c >= 0`, squared twice.
pub open spec fn root_diff_le(x: int, y: int, c: int) -> bool {
    let e = y - x - c * c;
    e <= 0 || e * e <= 4 * (c * c) * x
}

/// `sqrt(y) - sqrt(x) >= c`, for `x, y, c >= 0`, squared twice.
pub open spec fn root_diff_ge(x: int, y: int, c: int) -> bool {
    let e = y - x - c * c;
    e >= 0 && 4 * (c * c) * x <= e * e
}

/// `4 k^2 s^3`: the square of `3 d R(s)` on the square-root curve.
pub open spec fn root_term(k: int, s: int) -> int {
    4 * (k * k) * (s * s * s)
}

/// Minting `m` at supply `s` costs at most `p`: `R(s + m) - R(s) <= p`.
pub open spec fn mint_cost_within(c: CurveType, s: int, m: int, p: int) -> bool {
    let k = c.coef();
    let d = c.divisor();
    match c {
        CurveType::Constant { .. } => k * m <= d * p,
        CurveType::Linear { .. } => k * ((s + m) * (s + m) - s * s) <= 2 * d * p,
        CurveType::SquareRoot { .. } => root_diff_le(root_term(k, s), root_term(k, s + m), 3 * d * p),
    }
}

/// `m` is what a payment `p` mints at supply `s`: the most whose cost is
/// within `p`.
pub open spec fn is_mint_for(c: CurveType, s: int, p: int, m: int) -> bool {
    m >= 0 && mint_cost_within(c, s, m, p) && !mint_cost_within(c, s, m + 1, p)
}

/// Burning `a` at supply `s` releases at least `g`: `g <= R(s) - R(s - a)`.
pub open spec fn burn_covers(c: CurveType, s: int, a: int, g: int) -> bool {
    let k = c.coef();
    let d = c.divisor();
    match c {
        CurveType::Constant { .. } => d * g <= k * a,
        CurveType::Linear { .. } => 2 * d * g <= k * (s * s - (s - a) * (s - a)),
        CurveType::SquareRoot { .. } => root_diff_ge(root_term(k, s - a), root_term(k, s), 3 * d * g),
    }
}

/// `g` is what burning `a` at supply `s` releases: `floor(R(s) - R(s - a))`.
pub open spec fn is_burn_proceeds(c: CurveType, s: int, a: int, g: int) -> bool {
    g >= 0 && burn_covers(c, s, a, g) && !burn_covers(c, s, a, g + 1)
}

/// What a payment `p` mints at supply `s`.
pub open spec fn mint_at(c: CurveType, s: int, p: int) -> int {
    choose|m: int| is_mint_for(c, s, p, m)
}

/// What burning `a` at supply `s` releases.
pub open spec fn burn_at(c: CurveType, s: int, a: int) -> int {
    choose|g: int| is_burn_proceeds(c, s, a, g)
}

/// The products that give the mint can be computed (constant and linear
/// curves; the square-root curve's search says so only by succeeding).
pub open spec fn mint_fits(c: CurveType, s: int, p: int) -> bool {
    let k = c.coef();
    let d = c.divisor();
    match c {
        CurveType::Constant { .. } => d * p <= u128::MAX,
        CurveType::Linear { .. } => 2 * d * p <= u128::MAX && s * s + (2 * d * p) / k <= u128::MAX,
        CurveType::SquareRoot { .. } => true,
    }
}

/// The products that give the proceeds can be computed (constant and
/// linear curves).
pub open spec fn burn_fits(c: CurveType, s: int, a: int) -> bool {
    let k = c.coef();
    match c {
        CurveType::Constant { .. } => k * a <= u128::MAX,
        CurveType::Linear { .. } => k * (a * (2 * s - a)) <= u128::MAX,
        CurveType::SquareRoot { .. } => true,
    }
}

proof fn lemma_scale(c: CurveType)
    requires
        c.wf(),
    ensures
        1 <= c.divisor() <= 1_000_000_000_000_000_000,
{
    lemma_ten_pow_positive(c.scale_of());
    lemma_ten_pow_monotone(c.scale_of(), 18);
    lemma_ten_pow_18();
}

proof fn lemma_cube_le(a: int, b: int)
    requires
        0 <= a <= b,
    ensures
        a * a * a <= b * b * b,
{
    assert(a * a * a <= b * b * b) by (nonlinear_arith)
        requires
            0 <= a <= b,
    ;
}

/// A cost within `p` stays within `p` for less minted.
pub proof fn lemma_mint_cost_monotone(c: CurveType, s: int, m1: int, m2: int, p: int)
    requires
        c.wf(),
        s >= 0,
        0 <= m1 <= m2,
        p >= 0,
        mint_cost_within(c, s, m2, p),
    ensures
        mint_cost_within(c, s, m1, p),
{
    let k = c.coef();
    match c {
        CurveType::Constant { .. } => {
            assert(k * m1 <= k * m2) by (nonlinear_arith)
                requires
                    k >= 1,
                    m1 <= m2,
            ;
        },
        CurveType::Linear { .. } => {
            assert(k * ((s + m1) * (s + m1) - s * s) <= k * ((s + m2) * (s + m2) - s * s))
                by (nonlinear_arith)
                requires
                    k >= 1,
                    0 <= s,
                    0 <= m1 <= m2,
            ;
        },
        CurveType::SquareRoot { .. } => {
            lemma_cube_le(s + m1, s + m2);
            let x = root_term(k, s);
            let y1 = root_term(k, s + m1);
            let y2 = root_term(k, s + m2);
            assert(y1 <= y2) by (nonlinear_arith)
                requires
                    y1 == 4 * (k * k) * ((s + m1) * (s + m1) * (s + m1)),
                    y2 == 4 * (k * k) * ((s + m2) * (s + m2) * (s + m2)),
                    (s + m1) * (s + m1) * (s + m1) <= (s + m2) * (s + m2) * (s + m2),
            ;
            let cc = 3 * c.divisor() * p;
            let e1 = y1 - x - cc * cc;
            let e2 = y2 - x - cc * cc;
            if e1 > 0 {
                assert(e1 * e1 <= e2 * e2) by (nonlinear_arith)
                    requires
                        0 < e1 <= e2,
                ;
            }
        },
    }
}

/// Proceeds that cover `g` cover every smaller amount.
pub proof fn lemma_burn_covers_monotone(c: CurveType, s: int, a: int, g1: int, g2: int)
    requires
        c.wf(),
        0 <= a <= s,
        0 <= g1 <= g2,
        burn_covers(c, s, a, g2),
    ensures
        burn_covers(c, s, a, g1),
{
    lemma_scale(c);
    let d = c.divisor();
    match c {
        CurveType::Constant { .. } => {
            assert(d * g1 <= d * g2) by (nonlinear_arith)
                requires
                    d >= 1,
                    g1 <= g2,
            ;
        },
        CurveType::Linear { .. } => {
            assert(2 * d * g1 <= 2 * d * g2) by (nonlinear_arith)
                requires
                    d >= 1,
                    g1 <= g2,
            ;
        },
        CurveType::SquareRoot { .. } => {
            let k = c.coef();
            let x = root_term(k, s - a);
            let y = root_term(k, s);
            let c1 = 3 * d * g1;
            let c2 = 3 * d * g2;
            assert(0 <= c1 <= c2) by (nonlinear_arith)
                requires
                    d >= 1,
                    0 <= g1 <= g2,
                    c1 == 3 * d * g1,
                    c2 == 3 * d * g2,
            ;
            assert(c1 * c1 <= c2 * c2) by (nonlinear_arith)
                requires
                    0 <= c1 <= c2,
            ;
            let e1 = y - x - c1 * c1;
            let e2 = y - x - c2 * c2;
            assert(x >= 0) by (nonlinear_arith)
                requires
                    x == 4 * (k * k) * ((s - a) * (s - a) * (s - a)),
                    s - a >= 0,
            ;
            assert(4 * (c1 * c1) * x <= e1 * e1) by (nonlinear_arith)
                requires
                    x >= 0,
                    c1 * c1 <= c2 * c2,
                    0 <= e2 <= e1,
                    4 * (c2 * c2) * x <= e2 * e2,
            ;
        },
    }
}

/// A purchase followed at once by the sale of what it minted pays back no
/// more than was paid in: the mint cost rounds up and the proceeds round
/// down, so no value leaves the pool through rounding.
pub proof fn lemma_round_trip_no_gain(c: CurveType, s: int, p: int, m: int, g: int)
    requires
        c.wf(),
        s >= 0,
        p >= 0,
        is_mint_for(c, s, p, m),
        is_burn_proceeds(c, s + m, m, g),
    ensures
        g <= p,
{
    lemma_scale(c);
    let k = c.coef();
    let d = c.divisor();
    match c {
        CurveType::Constant { .. } => {
            assert(g <= p) by (nonlinear_arith)
                requires
                    d >= 1,
                    d * g <= k * m,
                    k * m <= d * p,
            ;
        },
        CurveType::Linear { .. } => {
            assert((s + m) - m == s);
            assert(g <= p) by (nonlinear_arith)
                requires
                    d >= 1,
                    2 * d * g <= k * ((s + m) * (s + m) - s * s),
                    k * ((s + m) * (s + m) - s * s) <= 2 * d * p,
            ;
        },
        CurveType::SquareRoot { .. } => {
            assert((s + m) - m == s);
            let x = root_term(k, s);
            let y = root_term(k, s + m);
            let cg = 3 * d * g;
            let cp = 3 * d * p;
            assert(x >= 0) by (nonlinear_arith)
                requires
                    x == 4 * (k * k) * (s * s * s),
                    s >= 0,
            ;
            assert(cp >= 0) by (nonlinear_arith)
                requires
                    d >= 1,
                    p >= 0,
                    cp == 3 * d * p,
            ;
            if cg > cp {
                let eg = y - x - cg * cg;
                let ep = y - x - cp * cp;
                assert(false) by (nonlinear_arith)
                    requires
                        cg > cp,
                        cp >= 0,
                        x >= 0,
                        eg == y - x - cg * cg,
                        ep == y - x - cp * cp,
                        eg >= 0,
                        4 * (cg * cg) * x <= eg * eg,
                        ep <= 0 || ep * ep <= 4 * (cp * cp) * x,
                ;
            }
            assert(g <= p) by (nonlinear_arith)
                requires
                    d >= 1,
                    3 * d * g <= 3 * d * p,
            ;
        },
    }
}

/// A payment mints one amount only.
pub proof fn lemma_mint_unique(c: CurveType, s: int, p: int, m: int)
    requires
        c.wf(),
        s >= 0,
        p >= 0,
        is_mint_for(c, s, p, m),
    ensures
        mint_at(c, s, p) == m,
{
    let t = mint_at(c, s, p);
    assert(is_mint_for(c, s, p, t));
    if t < m {
        lemma_mint_cost_monotone(c, s, t + 1, m, p);
    } else if m < t {
        lemma_mint_cost_monotone(c, s, m + 1, t, p);
    }
}

/// A burn releases one amount only.
pub proof fn lemma_burn_unique(c: CurveType, s: int, a: int, g: int)
    requires
        c.wf(),
        0 <= a <= s,
        is_burn_proceeds(c, s, a, g),
    ensures
        burn_at(c, s, a) == g,
{
    let t = burn_at(c, s, a);
    assert(is_burn_proceeds(c, s, a, t));
    if t < g {
        lemma_burn_covers_monotone(c, s, a, t + 1, g);
    } else if g < t {
        lemma_burn_covers_monotone(c, s, a, g + 1, t);
    }
}

/// A reserve that backs the supply, with a payment added that covers the
/// cost of what it mints, backs the new supply.
pub proof fn lemma_mint_keeps_backing(c: CurveType, s: int, r: int, m: int, p: int)
    requires
        c.wf(),
        s >= 0,
        r >= 0,
        m >= 0,
        p >= 0,
        backs(c, s, r),
        mint_cost_within(c, s, m, p),
    ensures
        backs(c, s + m, r + p),
{
    lemma_scale(c);
    let k = c.coef();
    let d = c.divisor();
    match c {
        CurveType::Constant { .. } => {
            assert(k * (s + m) <= d * (r + p)) by (nonlinear_arith)
                requires
                    k * s <= d * r,
                    k * m <= d * p,
            ;
        },
        CurveType::Linear { .. } => {
            assert(k * ((s + m) * (s + m)) <= 2 * d * (r + p)) by (nonlinear_arith)
                requires
                    k * (s * s) <= 2 * d * r,
                    k * ((s + m) * (s + m) - s * s) <= 2 * d * p,
            ;
        },
        CurveType::SquareRoot { .. } => {
            let x = root_term(k, s);
            let y = root_term(k, s + m);
            let big_r = 3 * d * r;
            let big_c = 3 * d * p;
            assert(x <= big_r * big_r) by (nonlinear_arith)
                requires
                    x == 4 * (k * k) * (s * s * s),
                    4 * (k * k) * (s * s * s) <= 9 * (d * d) * (r * r),
                    big_r == 3 * d * r,
            ;
            assert(x >= 0) by (nonlinear_arith)
                requires
                    x == 4 * (k * k) * (s * s * s),
                    s >= 0,
            ;
            assert(big_r >= 0 && big_c >= 0) by (nonlinear_arith)
                requires
                    d >= 1,
                    r >= 0,
                    p >= 0,
                    big_r == 3 * d * r,
                    big_c == 3 * d * p,
            ;
            let e = y - x - big_c * big_c;
            if e > 0 {
                assert(e * e <= (2 * big_c * big_r) * (2 * big_c * big_r)) by (nonlinear_arith)
                    requires
                        e * e <= 4 * (big_c * big_c) * x,
                        0 <= x <= big_r * big_r,
                ;
                assert(e <= 2 * big_c * big_r) by (nonlinear_arith)
                    requires
                        e > 0,
                        big_c >= 0,
                        big_r >= 0,
                        e * e <= (2 * big_c * big_r) * (2 * big_c * big_r),
                ;
            }
            assert(y <= (big_r + big_c) * (big_r + big_c)) by (nonlinear_arith)
                requires
                    e == y - x - big_c * big_c,
                    e <= 0 || e <= 2 * big_c * big_r,
                    x <= big_r * big_r,
                    big_c >= 0,
                    big_r >= 0,
            ;
            assert((big_r + big_c) * (big_r + big_c) == 9 * (d * d) * ((r + p) * (r + p)))
                by (nonlinear_arith)
                requires
                    big_r == 3 * d * r,
                    big_c == 3 * d * p,
            ;
        },
    }
}

/// What a burn releases is no more than the reserve, and the rest of the
/// reserve backs the rest of the supply.
pub proof fn lemma_burn_keeps_backing(c: CurveType, s: int, r: int, a: int, g: int)
    requires
        c.wf(),
        0 <= a <= s,
        r >= 0,
        g >= 0,
        backs(c, s, r),
        burn_covers(c, s, a, g),
    ensures
        g <= r,
        backs(c, s - a, r - g),
{
    lemma_scale(c);
    let k = c.coef();
    let d = c.divisor();
    match c {
        CurveType::Constant { .. } => {
            assert(g <= r && k * (s - a) <= d * (r - g)) by (nonlinear_arith)
                requires
                    k >= 1,
                    d >= 1,
                    0 <= a <= s,
                    k * s <= d * r,
                    d * g <= k * a,
            ;
        },
        CurveType::Linear { .. } => {
            assert(k * ((s - a) * (s - a)) >= 0) by (nonlinear_arith)
                requires
                    k >= 1,
            ;
            assert(g <= r && k * ((s - a) * (s - a)) <= 2 * d * (r - g)) by (nonlinear_arith)
                requires
                    d >= 1,
                    k * ((s - a) * (s - a)) >= 0,
                    k * (s * s) <= 2 * d * r,
                    2 * d * g <= k * (s * s - (s - a) * (s - a)),
            ;
        },
        CurveType::SquareRoot { .. } => {
            let x = root_term(k, s - a);
            let y = root_term(k, s);
            let big_r = 3 * d * r;
            let big_c = 3 * d * g;
            assert(y <= big_r * big_r) by (nonlinear_arith)
                requires
                    y == 4 * (k * k) * (s * s * s),
                    4 * (k * k) * (s * s * s) <= 9 * (d * d) * (r * r),
                    big_r == 3 * d * r,
            ;
            assert(x >= 0) by (nonlinear_arith)
                requires
                    x == 4 * (k * k) * ((s - a) * (s - a) * (s - a)),
                    s - a >= 0,
            ;
            assert(big_r >= 0 && big_c >= 0) by (nonlinear_arith)
                requires
                    d >= 1,
                    r >= 0,
                    g >= 0,
                    big_r == 3 * d * r,
                    big_c == 3 * d * g,
            ;
            let e = y - x - big_c * big_c;
            assert(big_c <= big_r) by (nonlinear_arith)
                requires
                    e >= 0,
                    e == y - x - big_c * big_c,
                    x >= 0,
                    y <= big_r * big_r,
                    big_c >= 0,
                    big_r >= 0,
            ;
            if x > (big_r - big_c) * (big_r - big_c) {
                assert(false) by (nonlinear_arith)
                    requires
                        x > (big_r - big_c) * (big_r - big_c),
                        e == y - x - big_c * big_c,
                        e >= 0,
                        4 * (big_c * big_c) * x <= e * e,
                        y <= big_r * big_r,
                        0 <= big_c <= big_r,
                ;
            }
            assert(g <= r) by (nonlinear_arith)
                requires
                    3 * d * g <= 3 * d * r,
                    d >= 1,
            ;
            assert((big_r - big_c) * (big_r - big_c) == 9 * (d * d) * ((r - g) * (r - g)))
                by (nonlinear_arith)
                requires
                    big_r == 3 * d * r,
                    big_c == 3 * d * g,
            ;
        },
    }
}

/// `4 k^2 s^3`, where it fits in a `u128`.
fn root_term_exec(k: u128, s: u128) -> (r: Option<u128>)
    ensures
        r matches Some(v) ==> v == root_term(k as int, s as int),
{
    let kk = mul_checked(k, k)?;
    let k4 = mul_checked(4, kk)?;
    let ss = mul_checked(s, s)?;
    let sss = mul_checked(ss, s)?;
    let v = mul_checked(k4, sss)?;
    proof {
        assert(v == 4 * (k * k) * (s * s * s)) by (nonlinear_arith)
            requires
                kk == k * k,
                k4 == 4 * kk,
                ss == s * s,
                sss == ss * s,
                v == k4 * sss,
        ;
    }
    Some(v)
}

/// Whether `sqrt(y) - sqrt(x) <= c`; `None` where a square does not fit.
fn root_le_test(x: u128, y: u128, c: u128) -> (r: Option<bool>)
    ensures
        r matches Some(b) ==> b == root_diff_le(x as int, y as int, c as int),
{
    let c2 = match mul_checked(c, c) {
        Some(v) => v,
        None => return Some(true),
    };
    proof {
        assert(4 * (c * c) * x == 4 * (c2 * x) && c2 * x >= 0) by (nonlinear_arith)
            requires
                c2 == c * c,
                x >= 0,
        ;
    }
    let xc = match x.checked_add(c2) {
        Some(v) => v,
        None => return Some(true),
    };
    if y <= xc {
        return Some(true);
    }
    let e = y - xc;
    let e2 = mul_checked(e, e)?;
    let rhs = match mul_checked(c2, x) {
        Some(v) => match mul_checked(4, v) {
            Some(w) => w,
            None => return Some(true),
        },
        None => {
            proof {
                assert(4 * (c2 * x) >= c2 * x);
            }
            return Some(true);
        },
    };
    Some(e2 <= rhs)
}

/// Whether `sqrt(y) - sqrt(x) >= c`; `None` where a square does not fit.
fn root_ge_test(x: u128, y: u128, c: u128) -> (r: Option<bool>)
    ensures
        r matches Some(b) ==> b == root_diff_ge(x as int, y as int, c as int),
{
    let c2 = match mul_checked(c, c) {
        Some(v) => v,
        None => return Some(false),
    };
    proof {
        assert(4 * (c * c) * x == 4 * (c2 * x) && c2 * x >= 0) by (nonlinear_arith)
            requires
                c2 == c * c,
                x >= 0,
        ;
    }
    let xc = match x.checked_add(c2) {
        Some(v) => v,
        None => return Some(false),
    };
    if y < xc {
        return Some(false);
    }
    let e = y - xc;
    let lhs = match mul_checked(c2, x) {
        Some(v) => mul_checked(4, v),
        None => None,
    };
    let e2 = mul_checked(e, e);
    match (lhs, e2) {
        (Some(l), Some(r)) => Some(l <= r),
        (Some(_), None) => Some(true),
        (None, Some(_)) => {
            proof {
                assert(4 * (c2 * x) >= c2 * x);
            }
            Some(false)
        },
        (None, None) => None,
    }
}

/// A question put to the square-root curve's search.
enum Probe {
    Mint { s: u128, p: u128 },
    Burn { s: u128, a: u128 },
}

spec fn probe_ok(c: CurveType, probe: Probe, v: int) -> bool {
    match probe {
        Probe::Mint { s, p } => mint_cost_within(c, s as int, v, p as int),
        Probe::Burn { s, a } => burn_covers(c, s as int, a as int, v),
    }
}

/// Whether `v` answers `probe` on the square-root curve with coefficient
/// `k` and divisor `d`; `None` where a product does not fit.
fn probe_test(c: &CurveType, k: u128, d: u128, probe: &Probe, v: u128) -> (r: Option<bool>)
    requires
        c is SquareRoot,
        k == c.coef(),
        d == c.divisor(),
        1 <= d <= 1_000_000_000_000_000_000,
        *probe matches Probe::Burn { s, a } ==> a <= s,
    ensures
        r matches Some(b) ==> b == probe_ok(*c, *probe, v as int),
{
    match probe {
        Probe::Mint { s, p } => {
            let cp = mul_checked(3 * d, *p)?;
            let x = root_term_exec(k, *s)?;
            let sv = s.checked_add(v)?;
            let y = root_term_exec(k, sv)?;
            root_le_test(x, y, cp)
        },
        Probe::Burn { s, a } => {
            let y = root_term_exec(k, *s)?;
            let cc = match mul_checked(3 * d, v) {
                Some(cc) => cc,
                None => {
                    // `3 d v` is past the range that `y` lies in, so its
                    // square is past `y`: these proceeds are too much.
                    proof {
                        assert((3 * d * v) * (3 * d * v) >= 3 * d * v) by (nonlinear_arith)
                            requires
                                3 * d * v >= 1,
                        ;
                    }
                    return Some(false);
                },
            };
            let x = root_term_exec(k, *s - *a)?;
            root_ge_test(x, y, cc)
        },
    }
}

/// The answer to `probe` on the square-root curve: the `v` that passes
/// while `v + 1` does not, found by doubling and then halving.
fn greatest_passing(c: &CurveType, k: u128, d: u128, probe: &Probe) -> (r: Result<u128, ContractError>)
    requires
        c is SquareRoot,
        k == c.coef(),
        d == c.divisor(),
        1 <= d <= 1_000_000_000_000_000_000,
        *probe matches Probe::Burn { s, a } ==> a <= s,
        probe_ok(*c, *probe, 0),
    ensures
        r matches Ok(v) ==> probe_ok(*c, *probe, v as int) && !probe_ok(*c, *probe, v + 1),
        r matches Err(e) ==> e == ContractError::ArithmeticOverflow,
{
    let mut lo: u128 = 0;
    let mut hi: u128 = 1;
    let mut bounded = false;
    while !bounded
        invariant
            lo < hi,
            probe_ok(*c, *probe, lo as int),
            bounded ==> !probe_ok(*c, *probe, hi as int),
            c is SquareRoot,
            k == c.coef(),
            d == c.divisor(),
            1 <= d <= 1_000_000_000_000_000_000,
            *probe matches Probe::Burn { s, a } ==> a <= s,
        decreases u128::MAX - hi + if bounded { 0int } else { 1int },
    {
        match probe_test(c, k, d, probe, hi) {
            None => return Err(ContractError::ArithmeticOverflow),
            Some(true) => {
                if hi > u128::MAX / 2 {
                    return Err(ContractError::ArithmeticOverflow);
                }
                lo = hi;
                hi = 2 * hi;
            },
            Some(false) => {
                bounded = true;
            },
        }
    }
    while hi - lo > 1
        invariant
            lo < hi,
            probe_ok(*c, *probe, lo as int),
            !probe_ok(*c, *probe, hi as int),
            c is SquareRoot,
            k == c.coef(),
            d == c.divisor(),
            1 <= d <= 1_000_000_000_000_000_000,
            *probe matches Probe::Burn { s, a } ==> a <= s,
        decreases hi - lo,
    {
        let mid = lo + (hi - lo) / 2;
        match probe_test(c, k, d, probe, mid) {
            None => return Err(ContractError::ArithmeticOverflow),
            Some(true) => {
                lo = mid;
            },
            Some(false) => {
                hi = mid;
            },
        }
    }
    Ok(lo)
}

/// What `payment` reserve mints at `supply`: the most whose exact cost is
/// within the payment. On the constant and linear curves it fails with
/// `ArithmeticOverflow` exactly where `mint_fits` does not hold; on the
/// square-root curve, where a product of its search does not fit.
pub fn mint_for_payment(curve: &CurveType, supply: u128, payment: u128) -> (r: Result<u128, ContractError>)
    requires
        curve.wf(),
    ensures
        !(curve is SquareRoot) ==> (r is Ok <==> mint_fits(*curve, supply as int, payment as int)),
        r matches Ok(m) ==> is_mint_for(*curve, supply as int, payment as int, m as int),
        r matches Err(e) ==> e == ContractError::ArithmeticOverflow,
{
    let k = curve.coef_exec();
    proof {
        lemma_scale(*curve);
    }
    let d = ten_pow_u128(curve.scale_exec());
    match curve {
        CurveType::Constant { .. } => {
            let n = match mul_checked(d, payment) {
                Some(n) => n,
                None => return Err(ContractError::ArithmeticOverflow),
            };
            let m = n / k;
            proof {
                let rem = n % k;
                vstd::arithmetic::div_mod::lemma_fundamental_div_mod(n as int, k as int);
                assert(k * m <= n && k * (m + 1) > n) by (nonlinear_arith)
                    requires
                        n == k * m + rem,
                        0 <= rem < k,
                ;
            }
            Ok(m)
        },
        CurveType::Linear { .. } => {
            let n = match mul_checked(2 * d, payment) {
                Some(n) => n,
                None => return Err(ContractError::ArithmeticOverflow),
            };
            let q = n / k;
            let ss = match mul_checked(supply, supply) {
                Some(v) => v,
                None => return Err(ContractError::ArithmeticOverflow),
            };
            let u = match ss.checked_add(q) {
                Some(v) => v,
                None => return Err(ContractError::ArithmeticOverflow),
            };
            let root = isqrt(u);
            proof {
                let rem = n % k;
                vstd::arithmetic::div_mod::lemma_fundamental_div_mod(n as int, k as int);
                assert(supply <= root) by (nonlinear_arith)
                    requires
                        supply * supply <= u,
                        u < (root + 1) * (root + 1),
                        root >= 0,
                ;
            }
            let m = root - supply;
            proof {
                let rem = n % k;
                let s = supply as int;
                assert(k * ((s + m) * (s + m) - s * s) <= 2 * d * payment) by (nonlinear_arith)
                    requires
                        s + m == root,
                        root * root <= u,
                        u == s * s + q,
                        n == k * q + rem,
                        0 <= rem,
                        k >= 1,
                        n == 2 * d * payment,
                ;
                assert(k * ((s + m + 1) * (s + m + 1) - s * s) > 2 * d * payment) by (nonlinear_arith)
                    requires
                        s + m == root,
                        u < (root + 1) * (root + 1),
                        u == s * s + q,
                        n == k * q + rem,
                        rem < k,
                        k >= 1,
                        n == 2 * d * payment,
                ;
            }
            Ok(m)
        },
        CurveType::SquareRoot { .. } => {
            proof {
                let x = root_term(k as int, supply as int);
                let cc = 3 * d * payment;
                assert(x - x - cc * cc <= 0) by (nonlinear_arith);
                assert(supply + 0 == supply);
            }
            greatest_passing(curve, k, d, &Probe::Mint { s: supply, p: payment })
        },
    }
}

/// What burning `amount` at `supply` releases: the exact integral over the
/// burnt range, rounded down. On the constant and linear curves it fails
/// with `ArithmeticOverflow` exactly where `burn_fits` does not hold; on
/// the square-root curve, where a product of its search does not fit.
pub fn burn_proceeds(curve: &CurveType, supply: u128, amount: u128) -> (r: Result<u128, ContractError>)
    requires
        curve.wf(),
        amount <= supply,
    ensures
        !(curve is SquareRoot) ==> (r is Ok <==> burn_fits(*curve, supply as int, amount as int)),
        r matches Ok(g) ==> is_burn_proceeds(*curve, supply as int, amount as int, g as int),
        r matches Err(e) ==> e == ContractError::ArithmeticOverflow,
{
    let k = curve.coef_exec();
    proof {
        lemma_scale(*curve);
    }
    let d = ten_pow_u128(curve.scale_exec());
    match curve {
        CurveType::Constant { .. } => {
            let n = match mul_checked(k, amount) {
                Some(n) => n,
                None => return Err(ContractError::ArithmeticOverflow),
            };
            let g = n / d;
            proof {
                let rem = n % d;
                vstd::arithmetic::div_mod::lemma_fundamental_div_mod(n as int, d as int);
                assert(d * g <= n && d * (g + 1) > n) by (nonlinear_arith)
                    requires
                        n == d * g + rem,
                        0 <= rem < d,
                ;
            }
            Ok(g)
        },
        CurveType::Linear { .. } => {
            let ghost s = supply as int;
            let ghost a = amount as int;
            proof {
                assert(s * s - (s - a) * (s - a) == a * (2 * s - a)) by (nonlinear_arith);
            }
            if amount == 0 {
                proof {
                    assert(k * (0 * (2 * s - 0)) == 0) by (nonlinear_arith);
                }
                return Ok(0);
            }
            let t = match supply.checked_add(supply - amount) {
                Some(v) => v,
                None => {
                    proof {
                        assert(k * (a * (2 * s - a)) >= 2 * s - a) by (nonlinear_arith)
                            requires
                                k >= 1,
                                a >= 1,
                                2 * s - a >= 0,
                        ;
                    }
                    return Err(ContractError::ArithmeticOverflow);
                },
            };
            let w = match mul_checked(amount, t) {
                Some(v) => v,
                None => {
                    proof {
                        assert(k * (a * t) >= a * t) by (nonlinear_arith)
                            requires
                                k >= 1,
                                a * t >= 0,
                        ;
                        assert(a * t >= 0) by (nonlinear_arith)
                            requires
                                a >= 0,
                                t >= 0,
                        ;
                    }
                    return Err(ContractError::ArithmeticOverflow);
                },
            };
            let n = match mul_checked(k, w) {
                Some(v) => v,
                None => return Err(ContractError::ArithmeticOverflow),
            };
            let g = n / (2 * d);
            proof {
                let dd = (2 * d) as int;
                let rem = (n as int) % dd;
                vstd::arithmetic::div_mod::lemma_fundamental_div_mod(n as int, dd);
                assert(2 * d * g <= n && 2 * d * (g + 1) > n) by (nonlinear_arith)
                    requires
                        dd == 2 * d,
                        n == dd * g + rem,
                        0 <= rem < dd,
                ;
            }
            Ok(g)
        },
        CurveType::SquareRoot { .. } => {
            proof {
                let x = root_term(k as int, supply - amount);
                let y = root_term(k as int, supply as int);
                lemma_cube_le((supply - amount) as int, supply as int);
                assert(x <= y) by (nonlinear_arith)
                    requires
                        x == 4 * (k * k) * ((supply - amount) * (supply - amount) * (supply - amount)),
                        y == 4 * (k * k) * (supply * supply * supply),
                        (supply - amount) * (supply - amount) * (supply - amount) <= supply * supply * supply,
                ;
                assert(3 * d * 0 == 0);
                assert(4 * (0 * 0) * x <= (y - x - 0 * 0) * (y - x - 0 * 0)) by (nonlinear_arith)
                    requires
                        x <= y,
                ;
            }
            greatest_passing(curve, k, d, &Probe::Burn { s: supply, a: amount })
        },
    }
}

} // verus!
