//! Integer square roots, powers of ten and rounded division.

use vstd::prelude::*;

verus! {

/// `10` raised to `n`.
pub open spec fn ten_pow(n: nat) -> int
    decreases n,
{
    if n == 0 {
        1
    } else {
        10 * ten_pow((n - 1) as nat)
    }
}

pub proof fn lemma_ten_pow_positive(n: nat)
    ensures
        ten_pow(n) >= 1,
    decreases n,
{
    if n > 0 {
        lemma_ten_pow_positive((n - 1) as nat);
    }
}

pub proof fn lemma_ten_pow_monotone(m: nat, n: nat)
    requires
        m <= n,
    ensures
        ten_pow(m) <= ten_pow(n),
    decreases n,
{
    if m < n {
        lemma_ten_pow_monotone(m, (n - 1) as nat);
        lemma_ten_pow_positive((n - 1) as nat);
    }
}

pub proof fn lemma_ten_pow_18()
    ensures
        ten_pow(18) == 1_000_000_000_000_000_000,
{
    reveal_with_fuel(ten_pow, 19);
}

/// `10^n`, for at most eighteen decimal places.
pub fn ten_pow_u128(n: u32) -> (r: u128)
    requires
        n <= 18,
    ensures
        r == ten_pow(n as nat),
{
    let mut r: u128 = 1;
    let mut i: u32 = 0;
    while i < n
        invariant
            i <= n <= 18,
            r == ten_pow(i as nat),
        decreases n - i,
    {
        proof {
            lemma_ten_pow_monotone((i + 1) as nat, 18);
            lemma_ten_pow_18();
        }
        r = r * 10;
        i = i + 1;
    }
    r
}

/// The product `a * b`, or `None` where it does not fit in a `u128`.
pub fn mul_checked(a: u128, b: u128) -> (r: Option<u128>)
    ensures
        r matches Some(v) ==> v == a * b,
        r is None <==> a * b > u128::MAX,
{
    a.checked_mul(b)
}

/// The least `q` with `q * d >= n`.
pub fn div_ceil(n: u128, d: u128) -> (q: u128)
    requires
        d > 0,
    ensures
        q * d >= n,
        q == 0 || (q - 1) * d < n,
        q <= n,
{
    let q0 = n / d;
    let r0 = n % d;
    proof {
        vstd::arithmetic::div_mod::lemma_fundamental_div_mod(n as int, d as int);
        assert(q0 * d <= n) by (nonlinear_arith)
            requires
                n == d * q0 + r0,
                r0 >= 0,
        ;
    }
    if r0 == 0 {
        proof {
            assert(q0 == 0 || (q0 - 1) * d < n) by (nonlinear_arith)
                requires
                    n == d * q0 + r0,
                    r0 == 0,
                    d > 0,
            ;
            assert(q0 <= n) by (nonlinear_arith)
                requires
                    q0 * d <= n,
                    d > 0,
                    q0 >= 0,
            ;
        }
        q0
    } else {
        proof {
            assert((q0 + 1) * d >= n && q0 * d < n && q0 + 1 <= n) by (nonlinear_arith)
                requires
                    n == d * q0 + r0,
                    0 < r0 < d,
                    q0 >= 0,
            ;
        }
        q0 + 1
    }
}

/// The integer square root: the greatest `r` with `r * r <= x`.
pub fn isqrt(x: u128) -> (r: u128)
    ensures
        r * r <= x,
        x < (r + 1) * (r + 1),
{
    let mut lo: u128 = 0;
    let mut hi: u128 = 0x1_0000_0000_0000_0000;
    assert(hi * hi > u128::MAX);
    while hi - lo > 1
        invariant
            lo < hi,
            lo * lo <= x,
            x < hi * hi,
        decreases hi - lo,
    {
        let mid = lo + (hi - lo) / 2;
        let below = match mul_checked(mid, mid) {
            Some(sq) => sq <= x,
            None => false,
        };
        if below {
            lo = mid;
        } else {
            hi = mid;
        }
    }
    assert(hi == lo + 1);
    lo
}

/// The least `t` with `t * t >= x`.
pub fn isqrt_ceil(x: u128) -> (t: u128)
    ensures
        t * t >= x,
        t == 0 || (t - 1) * (t - 1) < x,
{
    let q = isqrt(x);
    if q * q == x {
        proof {
            assert(q == 0 || (q - 1) * (q - 1) < q * q) by (nonlinear_arith)
                requires
                    q >= 0,
            ;
        }
        q
    } else {
        proof {
            assert(q + 1 <= u128::MAX) by (nonlinear_arith)
                requires
                    q * q <= x,
                    x <= u128::MAX,
            ;
        }
        q + 1
    }
}

} // verus!
