//! Integer helpers shared by the geometry: magnitudes, bounds on products,
//! division that rounds toward zero, and the integer square root.
use vstd::prelude::*;

verus! {

/// The magnitude of an integer.
pub open spec fn magnitude(a: int) -> int {
    if a < 0 {
        -a
    } else {
        a
    }
}

/// The quotient of `a` by a positive `b`, rounded toward zero.
pub open spec fn quotient_toward_zero(a: int, b: int) -> int {
    if a >= 0 {
        a / b
    } else {
        -((-a) / b)
    }
}

/// `r` is the largest integer whose square does not exceed `n`.
pub open spec fn is_floor_sqrt(n: int, r: int) -> bool {
    0 <= r && r * r <= n && n < (r + 1) * (r + 1)
}

/// The largest integer whose square does not exceed `n` (0 for a negative `n`).
pub open spec fn floor_sqrt(n: int) -> int {
    if exists|r: int| is_floor_sqrt(n, r) {
        choose|r: int| is_floor_sqrt(n, r)
    } else {
        0
    }
}

/// A product is bounded by the product of the bounds of its factors.
pub proof fn lemma_mul_within(a: int, b: int, m: int, n: int)
    by (nonlinear_arith)
    requires
        -m <= a <= m,
        -n <= b <= n,
    ensures
        -(m * n) <= a * b <= m * n,
{
}

/// Only one integer is the floor of a square root.
pub proof fn lemma_floor_sqrt_unique(n: int, r: int, s: int)
    by (nonlinear_arith)
    requires
        is_floor_sqrt(n, r),
        is_floor_sqrt(n, s),
    ensures
        r == s,
{
    if r < s {
        assert((r + 1) * (r + 1) <= s * s);
    } else if s < r {
        assert((s + 1) * (s + 1) <= r * r);
    }
}

/// What `floor_sqrt` is, once one floor of the square root is known.
pub proof fn lemma_floor_sqrt_is(n: int, r: int)
    requires
        is_floor_sqrt(n, r),
    ensures
        floor_sqrt(n) == r,
{
    let s = floor_sqrt(n);
    assert(is_floor_sqrt(n, s));
    lemma_floor_sqrt_unique(n, r, s);
}

/// Divides `a` by a positive `b` and rounds toward zero.
pub fn div_toward_zero(a: i128, b: i128) -> (q: i128)
    requires
        a > i128::MIN,
        b > 0,
    ensures
        q == quotient_toward_zero(a as int, b as int),
        magnitude(q as int) <= magnitude(a as int),
{
    let ub: u128 = b as u128;
    if a >= 0 {
        let ua: u128 = a as u128;
        let uq: u128 = ua / ub;
        proof {
            lemma_quotient_small(ua as int, ub as int);
        }
        uq as i128
    } else {
        let ua: u128 = (-a) as u128;
        let uq: u128 = ua / ub;
        proof {
            lemma_quotient_small(ua as int, ub as int);
        }
        -(uq as i128)
    }
}

/// Dividing a natural number by a positive one does not enlarge it.
pub proof fn lemma_quotient_small(a: int, b: int)
    by (nonlinear_arith)
    requires
        0 <= a,
        0 < b,
    ensures
        0 <= a / b <= a,
{
}

/// The integer square root: the largest `r` with `r * r <= n`.
pub fn integer_sqrt(n: u128) -> (r: u64)
    ensures
        is_floor_sqrt(n as int, r as int),
        r as int == floor_sqrt(n as int),
{
    let mut lo: u128 = 0;
    let mut hi: u128 = 0x1_0000_0000_0000_0000;
    while hi - lo > 1
        invariant
            lo < hi <= 0x1_0000_0000_0000_0000,
            lo * lo <= n,
            n < hi * hi,
        decreases hi - lo,
    {
        let mid: u128 = lo + (hi - lo) / 2;
        assert(mid * mid <= 0xFFFF_FFFF_FFFF_FFFF * 0xFFFF_FFFF_FFFF_FFFF) by (nonlinear_arith)
            requires
                0 <= mid <= 0xFFFF_FFFF_FFFF_FFFF,
        ;
        if mid * mid <= n {
            lo = mid;
        } else {
            hi = mid;
        }
    }
    proof {
        assert(hi == lo + 1);
        lemma_floor_sqrt_is(n as int, lo as int);
    }
    lo as u64
}

} // verus!
