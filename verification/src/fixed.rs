//! Fixed-point scalar arithmetic: the square root, floor division and
//! linear interpolation primitives that the path geometry is built on.

use vstd::prelude::*;
use vstd::arithmetic::div_mod::lemma_fundamental_div_mod_converse;

verus! {

/// Scale of one unit in fixed-point values: rotation components, speeds and
/// elapsed seconds are all multiples of `1 / ONE`.
pub const ONE: i64 = 65536;

/// Largest magnitude a world-space coordinate may take once a vertex has
/// been placed by its parent (2^26 units).
pub const COORD_LIMIT: i64 = 67108864;

/// Largest magnitude of an input vertex coordinate or of a parent
/// translation component (2^22 units).
pub const VERTEX_LIMIT: i64 = 4194304;

/// Upper bound on the length of a single path segment between two
/// coordinate-bounded waypoints (2^28 units).
pub const SEGMENT_LIMIT: u64 = 268435456;

/// Most waypoints a path may carry (2^20), so that the total path length
/// always fits comfortably in a `u64`.
pub const MAX_WAYPOINTS: usize = 1048576;

/// `r` is the integer square root of `n`, rounded down.
pub open spec fn is_sqrt_floor(n: int, r: int) -> bool {
    0 <= r && r * r <= n < (r + 1) * (r + 1)
}

/// The integer square root of `n`, rounded down.
pub open spec fn sqrt_floor(n: int) -> int {
    choose|r: int| is_sqrt_floor(n, r)
}

/// A square is never negative.
pub proof fn lemma_sq_nonneg(a: int)
    by (nonlinear_arith)
    ensures
        a * a >= 0,
{
}

/// A bound on a value gives the squared bound on its square.
pub proof fn lemma_sq_bound(v: int, m: int)
    by (nonlinear_arith)
    requires
        -m <= v <= m,
        0 <= m,
    ensures
        0 <= v * v <= m * m,
{
}

/// Squaring preserves the order of non-negative values.
pub proof fn lemma_sq_monotone(a: int, b: int)
    by (nonlinear_arith)
    requires
        0 <= a <= b,
    ensures
        a * a <= b * b,
{
}

/// Bounds on a product from bounds on its factors.
pub proof fn lemma_mul_bound(a: int, b: int, ma: int, mb: int)
    by (nonlinear_arith)
    requires
        -ma <= a <= ma,
        -mb <= b <= mb,
        0 <= ma,
        0 <= mb,
    ensures
        -(ma * mb) <= a * b <= ma * mb,
{
}

/// Every non-negative integer has a rounded-down square root.
pub proof fn lemma_sqrt_floor_exists(n: int)
    requires
        n >= 0,
    ensures
        is_sqrt_floor(n, sqrt_floor(n)),
    decreases n,
{
    if n == 0 {
        assert(is_sqrt_floor(0, 0));
    } else {
        lemma_sqrt_floor_exists(n - 1);
        let r = sqrt_floor(n - 1);
        if n < (r + 1) * (r + 1) {
            assert(is_sqrt_floor(n, r));
        } else {
            assert(n == (r + 1) * (r + 1));
            assert((r + 1) * (r + 1) < (r + 2) * (r + 2)) by (nonlinear_arith)
                requires
                    r >= 0,
            ;
            assert(is_sqrt_floor(n, r + 1));
        }
    }
}

/// The rounded-down square root is unique.
pub proof fn lemma_sqrt_floor_is(n: int, r: int)
    requires
        is_sqrt_floor(n, r),
    ensures
        sqrt_floor(n) == r,
{
    lemma_sq_nonneg(r);
    lemma_sqrt_floor_exists(n);
    let s = sqrt_floor(n);
    if r < s {
        lemma_sq_monotone(r + 1, s);
        assert(false);
    }
    if s < r {
        lemma_sq_monotone(s + 1, r);
        assert(false);
    }
}

/// Squares never shrink under the rounded-down square root: if `m <= n`
/// then `sqrt_floor(m) <= sqrt_floor(n)`.
pub proof fn lemma_sqrt_floor_monotone(m: int, n: int)
    requires
        0 <= m <= n,
    ensures
        sqrt_floor(m) <= sqrt_floor(n),
{
    lemma_sqrt_floor_exists(m);
    lemma_sqrt_floor_exists(n);
    let a = sqrt_floor(m);
    let b = sqrt_floor(n);
    if b < a {
        lemma_sq_monotone(b + 1, a);
        assert(false);
    }
}

/// A value whose square exceeds `n` bounds the root of `n` from above.
pub proof fn lemma_sqrt_floor_upper(n: int, m: int)
    requires
        0 <= n,
        0 <= m,
        n < m * m,
    ensures
        sqrt_floor(n) < m,
{
    lemma_sqrt_floor_exists(n);
    let r = sqrt_floor(n);
    if r >= m {
        lemma_sq_monotone(m, r);
        assert(false);
    }
}

/// Floor division by a positive divisor maps `[-m, m]` into
/// `[-(m / b) - 1, m / b]`.
pub proof fn lemma_div_range(a: int, b: int, m: int)
    requires
        0 < b,
        0 <= m,
        -m <= a <= m,
    ensures
        -(m / b) - 1 <= a / b <= m / b,
{
    vstd::arithmetic::div_mod::lemma_div_is_ordered(a, m, b);
    vstd::arithmetic::div_mod::lemma_fundamental_div_mod(m, b);
    vstd::arithmetic::div_mod::lemma_mod_bound(m, b);
    let q = m / b;
    let r = m % b;
    if r == 0 {
        assert(-m == (-q) * b + 0) by (nonlinear_arith)
            requires
                m == b * q + 0,
        ;
        lemma_fundamental_div_mod_converse(-m, b, -q, 0);
    } else {
        assert(-m == (-q - 1) * b + (b - r)) by (nonlinear_arith)
            requires
                m == b * q + r,
        ;
        lemma_fundamental_div_mod_converse(-m, b, -q - 1, b - r);
    }
    vstd::arithmetic::div_mod::lemma_div_is_ordered(-m, a, b);
}

/// The root of `n` dominates any value whose square is at most `n`.
pub proof fn lemma_sqrt_floor_ge_abs(v: int, n: int)
    requires
        v * v <= n,
    ensures
        sqrt_floor(n) >= v,
        sqrt_floor(n) >= -v,
{
    lemma_sq_nonneg(v);
    lemma_sqrt_floor_exists(n);
    let r = sqrt_floor(n);
    let a = if v >= 0 { v } else { -v };
    assert(a * a == v * v) by (nonlinear_arith)
        requires
            a == v || a == -v,
    ;
    if r < a {
        lemma_sq_monotone(r + 1, a);
        assert(false);
    }
}

/// The rounded-down square root of a perfect square.
pub proof fn lemma_sqrt_floor_of_square(a: int)
    requires
        a >= 0,
    ensures
        sqrt_floor(a * a) == a,
{
    lemma_sq_nonneg(a);
    assert(a * a < (a + 1) * (a + 1)) by (nonlinear_arith)
        requires
            a >= 0,
    ;
    lemma_sqrt_floor_is(a * a, a);
}

/// The integer square root of `n`, rounded down, by bisection.
pub fn isqrt(n: u64) -> (r: u64)
    requires
        n < 0x4000000000000000,
    ensures
        r == sqrt_floor(n as int),
        r * r <= n,
        n < (r + 1) * (r + 1),
{
    let mut lo: u64 = 0;
    let mut hi: u64 = 0x80000000;
    proof {
        assert((0x80000000int) * (0x80000000int) == 0x4000000000000000int);
    }
    while lo + 1 < hi
        invariant
            lo < hi <= 0x80000000,
            lo * lo <= n,
            n < hi * hi,
        decreases hi - lo,
    {
        let mid: u64 = lo + (hi - lo) / 2;
        proof {
            assert(mid * mid < 0x4000000000000000) by (nonlinear_arith)
                requires
                    mid < 0x80000000,
            ;
        }
        if mid * mid <= n {
            lo = mid;
        } else {
            hi = mid;
        }
    }
    proof {
        lemma_sqrt_floor_is(n as int, lo as int);
    }
    lo
}

/// Floor division of a possibly negative numerator by a positive divisor;
/// agrees with mathematical (Euclidean) division for positive divisors.
pub fn div_floor(a: i64, b: i64) -> (q: i64)
    requires
        0 < b,
        -0x4000000000000000 <= a <= 0x4000000000000000,
    ensures
        q == a as int / b as int,
{
    if a >= 0 {
        let q0: u64 = (a as u64) / (b as u64);
        proof {
            vstd::arithmetic::div_mod::lemma_div_nonincreasing(a as int, b as int);
        }
        q0 as i64
    } else {
        let m: u64 = (-a) as u64;
        let num: u64 = m + (b - 1) as u64;
        let q0: u64 = num / (b as u64);
        proof {
            let bi = b as int;
            let mi = m as int;
            let ni = num as int;
            let qi = q0 as int;
            vstd::arithmetic::div_mod::lemma_fundamental_div_mod(ni, bi);
            vstd::arithmetic::div_mod::lemma_mod_bound(ni, bi);
            let r0 = ni % bi;
            assert(a as int == (-qi) * bi + (bi - 1 - r0)) by (nonlinear_arith)
                requires
                    a as int == -mi,
                    ni == mi + bi - 1,
                    ni == bi * qi + r0,
            ;
            lemma_fundamental_div_mod_converse(a as int, bi, -qi, bi - 1 - r0);
            assert(qi <= mi + 1) by (nonlinear_arith)
                requires
                    bi >= 1,
                    qi >= 0,
                    mi >= 0,
                    0 <= r0,
                    mi + bi - 1 == bi * qi + r0,
            ;
        }
        -(q0 as i64)
    }
}

/// Linear interpolation from `a` to `b` at the rational parameter
/// `num / den`, rounded down.
pub open spec fn lerp_int(a: int, b: int, num: int, den: int) -> int {
    a + num * (b - a) / den
}

proof fn lemma_mul_sign_bound(num: int, den: int, diff: int)
    by (nonlinear_arith)
    requires
        0 <= num <= den,
        0 < den,
    ensures
        diff >= 0 ==> 0 <= num * diff <= den * diff,
        diff < 0 ==> den * diff <= num * diff <= 0,
{
}

/// Fixed-point linear interpolation; the result is pinned exactly and
/// always lies between `a` and `b`.
pub fn lerp_fix(a: i64, b: i64, num: u64, den: u64) -> (r: i64)
    requires
        0 < den <= 0x40000000,
        num <= den,
        -0x40000000 <= a <= 0x40000000,
        -0x40000000 <= b <= 0x40000000,
    ensures
        r == lerp_int(a as int, b as int, num as int, den as int),
        a <= b ==> a <= r <= b,
        b <= a ==> b <= r <= a,
        num == 0 ==> r == a,
        num == den ==> r == b,
{
    let diff: i64 = b - a;
    proof {
        assert(-0x4000000000000000 <= num * (diff as int) <= 0x4000000000000000)
            by (nonlinear_arith)
            requires
                0 <= num <= 0x40000000,
                -0x80000000 <= diff as int <= 0x80000000,
        ;
    }
    let prod: i64 = (num as i64) * diff;
    let q: i64 = div_floor(prod, den as i64);
    proof {
        let ni = num as int;
        let di = den as int;
        let df = diff as int;
        lemma_mul_sign_bound(ni, di, df);
        vstd::arithmetic::div_mod::lemma_div_multiples_vanish(df, di);
        assert(di * df == df * di) by (nonlinear_arith);
        if df >= 0 {
            vstd::arithmetic::div_mod::lemma_div_is_ordered(0, ni * df, di);
            vstd::arithmetic::div_mod::lemma_div_is_ordered(ni * df, df * di, di);
        } else {
            vstd::arithmetic::div_mod::lemma_div_is_ordered(df * di, ni * df, di);
            vstd::arithmetic::div_mod::lemma_div_is_ordered(ni * df, 0, di);
        }
        if num == den {
            assert(ni * df == df * di);
        }
        vstd::arithmetic::div_mod::lemma_div_of0(di);
    }
    a + q
}

} // verus!
