//! Fixed-point scalars and 2D vectors.
//!
//! All kinematic quantities are held as `i64` values scaled by `SCALE`:
//! one world unit (one pixel) is `SCALE` steps. Division truncates toward
//! zero, mirroring the usual rounding of a hardware divide.

use vstd::prelude::*;
use vstd::arithmetic::div_mod::*;
use vstd::arithmetic::mul::*;

verus! {

/// One world unit, in fixed-point steps.
pub const SCALE: i64 = 1000;

/// Magnitude cap on any coordinate handed to `vec_len` (and so on any
/// position difference the simulation ever measures).
pub const COMP_LIMIT: i64 = 400_000_000_000;

/// Truncating division: quotient rounded toward zero, as Rust's `/` on
/// machine integers rounds.
pub open spec fn tdiv(a: int, b: int) -> int
    recommends
        b > 0,
{
    if a >= 0 {
        a / b
    } else {
        -((-a) / b)
    }
}

/// A 2D vector (or point) in fixed-point coordinates.
#[derive(Clone, Copy, PartialEq, Eq, Structural, Debug)]
pub struct Vec2 {
    pub x: i64,
    pub y: i64,
}

/// Squared Euclidean norm.
pub open spec fn norm_sq(x: int, y: int) -> int {
    x * x + y * y
}

/// The integer square root: the greatest `r` with `r * r <= n`.
pub open spec fn sqrt_floor(n: int) -> int
    recommends
        n >= 0,
{
    choose|r: int| 0 <= r && #[trigger] (r * r) <= n && n < (r + 1) * (r + 1)
}

/// Any `r` whose square brackets `n` is the integer square root of `n`.
pub proof fn lemma_sqrt_floor_is(n: int, r: int)
    requires
        0 <= r,
        r * r <= n,
        n < (r + 1) * (r + 1),
    ensures
        sqrt_floor(n) == r,
{
    assert(0 <= r && r * r <= n && n < (r + 1) * (r + 1));
    let s = sqrt_floor(n);
    assert(0 <= s && s * s <= n && n < (s + 1) * (s + 1));
    assert(s == r) by (nonlinear_arith)
        requires
            0 <= r,
            r * r <= n,
            n < (r + 1) * (r + 1),
            0 <= s,
            s * s <= n,
            n < (s + 1) * (s + 1),
    ;
}

/// Every non-negative integer has an integer square root.
pub proof fn lemma_sqrt_floor_exists(n: int)
    requires
        n >= 0,
    ensures
        0 <= sqrt_floor(n),
        sqrt_floor(n) * sqrt_floor(n) <= n,
        n < (sqrt_floor(n) + 1) * (sqrt_floor(n) + 1),
    decreases n,
{
    if n == 0 {
        lemma_sqrt_floor_is(0, 0);
    } else {
        lemma_sqrt_floor_exists(n - 1);
        let r = sqrt_floor(n - 1);
        if (r + 1) * (r + 1) <= n {
            assert(n == (r + 1) * (r + 1));
            assert(n < (r + 2) * (r + 2)) by (nonlinear_arith)
                requires
                    n == (r + 1) * (r + 1),
                    r >= 0,
            ;
            lemma_sqrt_floor_is(n, r + 1);
        } else {
            lemma_sqrt_floor_is(n, r);
        }
    }
}

/// No coordinate of a vector exceeds the vector's norm.
pub proof fn lemma_comp_le_len(x: int, y: int, d: int)
    requires
        0 <= d,
        norm_sq(x, y) < (d + 1) * (d + 1),
    ensures
        -d <= x <= d,
        -d <= y <= d,
{
    assert(-d <= x <= d && -d <= y <= d) by (nonlinear_arith)
        requires
            0 <= d,
            x * x + y * y < (d + 1) * (d + 1),
    ;
}

/// Truncating division shrinks magnitudes: `|a / b| <= |a|` and, more
/// precisely, `|tdiv(a, b)| * b <= |a|`.
pub proof fn lemma_tdiv_mag(a: int, b: int)
    requires
        b >= 1,
    ensures
        a >= 0 ==> 0 <= tdiv(a, b) <= a,
        a < 0 ==> a <= tdiv(a, b) <= 0,
        tdiv(a, b) * b <= if a >= 0 { a } else { -a },
        -(tdiv(a, b) * b) <= if a >= 0 { a } else { -a },
{
    if a >= 0 {
        lemma_div_pos_is_pos(a, b);
        lemma_fundamental_div_mod(a, b);
        lemma_mod_bound(a, b);
        assert(b * (a / b) == (a / b) * b) by (nonlinear_arith);
        lemma_div_nonincreasing(a, b);
    } else {
        lemma_div_pos_is_pos(-a, b);
        lemma_fundamental_div_mod(-a, b);
        lemma_mod_bound(-a, b);
        assert(b * ((-a) / b) == ((-a) / b) * b) by (nonlinear_arith);
        lemma_div_nonincreasing(-a, b);
        assert(tdiv(a, b) * b == -(((-a) / b) * b)) by (nonlinear_arith)
            requires
                tdiv(a, b) == -((-a) / b),
        ;
    }
}

/// Scaling a coordinate no longer than `d` by `m / d` keeps it within `m`.
pub proof fn lemma_scale_div_le(x: int, m: int, d: int)
    requires
        d >= 1,
        m >= 0,
        -d <= x <= d,
    ensures
        -m <= tdiv(x * m, d) <= m,
{
    lemma_tdiv_mag(x * m, d);
    let axm = if x * m >= 0 { x * m } else { -(x * m) };
    assert(axm <= d * m) by (nonlinear_arith)
        requires
            -d <= x <= d,
            m >= 0,
            axm == if x * m >= 0 { x * m } else { -(x * m) },
    ;
    lemma_div_is_ordered(axm, d * m, d);
    lemma_div_multiples_vanish(m, d);
    assert(d * m == m * d) by (nonlinear_arith);
    assert(axm / d <= m);
    if x * m >= 0 {
        assert(tdiv(x * m, d) == axm / d);
    } else {
        assert(tdiv(x * m, d) == -(axm / d));
        lemma_div_pos_is_pos(axm, d);
    }
}

/// A quotient of a value within `b * k` by `b` stays within `k`.
pub proof fn lemma_tdiv_le_of_bound(a: int, b: int, k: int)
    requires
        b >= 1,
        k >= 0,
        -(b * k) <= a <= b * k,
    ensures
        -k <= tdiv(a, b) <= k,
{
    lemma_tdiv_mag(a, b);
    let aa = if a >= 0 { a } else { -a };
    lemma_div_is_ordered(aa, b * k, b);
    lemma_div_multiples_vanish(k, b);
    assert(b * k == k * b) by (nonlinear_arith);
    assert(aa / b <= k);
    if a >= 0 {
        assert(tdiv(a, b) == aa / b);
    } else {
        assert(tdiv(a, b) == -(aa / b));
        lemma_div_pos_is_pos(aa, b);
    }
}

/// Scaling a vector of norm `d > m` down by `m / d` leaves its squared norm
/// under `(m + 1) * (m + 1)`: the clamped vector is no longer than `m` up to
/// one quantization step.
pub proof fn lemma_clamp_norm(x: int, y: int, d: int, m: int)
    requires
        d >= 1,
        0 <= m < d,
        d * d <= norm_sq(x, y),
        norm_sq(x, y) < (d + 1) * (d + 1),
    ensures
        norm_sq(tdiv(x * m, d), tdiv(y * m, d)) < (m + 1) * (m + 1),
{
    let cx = tdiv(x * m, d);
    let cy = tdiv(y * m, d);
    lemma_comp_le_len(x, y, d);
    lemma_tdiv_mag(x * m, d);
    lemma_tdiv_mag(y * m, d);
    let ax = if x >= 0 { x } else { -x };
    let ay = if y >= 0 { y } else { -y };
    assert(ax * ax == x * x && ay * ay == y * y && (if x * m >= 0 {
        x * m
    } else {
        -(x * m)
    }) == ax * m && (if y * m >= 0 {
        y * m
    } else {
        -(y * m)
    }) == ay * m) by (nonlinear_arith)
        requires
            m >= 0,
            ax == if x >= 0 { x } else { -x },
            ay == if y >= 0 { y } else { -y },
    ;
    // |cx| * d <= |x| * m, coordinatewise; square both sides.
    assert((cx * cx) * (d * d) <= (ax * ax) * (m * m)) by (nonlinear_arith)
        requires
            cx * d <= ax * m,
            -(cx * d) <= ax * m,
    ;
    assert((cy * cy) * (d * d) <= (ay * ay) * (m * m)) by (nonlinear_arith)
        requires
            cy * d <= ay * m,
            -(cy * d) <= ay * m,
    ;
    // Sum the squared bounds and compare against the bracket on x^2 + y^2.
    assert((cx * cx + cy * cy) * (d * d) <= (x * x + y * y) * (m * m)) by (nonlinear_arith)
        requires
            (cx * cx) * (d * d) <= (x * x) * (m * m),
            (cy * cy) * (d * d) <= (y * y) * (m * m),
    ;
    assert((x * x + y * y) * (m * m) <= (d * d + 2 * d) * (m * m)) by (nonlinear_arith)
        requires
            x * x + y * y < (d + 1) * (d + 1),
            d >= 1,
            m >= 0,
    ;
    assert((cx * cx + cy * cy) * (d * d) <= (d * d + 2 * d) * (m * m));
    // Conclude by contradiction.
    assert(norm_sq(cx, cy) < (m + 1) * (m + 1)) by (nonlinear_arith)
        requires
            (cx * cx + cy * cy) * (d * d) <= (d * d + 2 * d) * (m * m),
            0 <= m,
            m + 1 <= d,
    ;
}

/// Truncating division of an `i64` by a positive divisor.
pub fn quot64(a: i64, b: i64) -> (q: i64)
    requires
        b >= 1,
        a > i64::MIN,
    ensures
        q == tdiv(a as int, b as int),
{
    proof {
        lemma_tdiv_mag(a as int, b as int);
    }
    if a >= 0 {
        ((a as u64) / (b as u64)) as i64
    } else {
        let na: i64 = -a;
        let q0: u64 = (na as u64) / (b as u64);
        proof {
            lemma_div_nonincreasing(na as int, b as int);
            lemma_div_pos_is_pos(na as int, b as int);
        }
        -(q0 as i64)
    }
}

/// Truncating division of an `i128` by a positive divisor.
pub fn quot128(a: i128, b: i128) -> (q: i128)
    requires
        b >= 1,
        a > i128::MIN,
    ensures
        q == tdiv(a as int, b as int),
{
    proof {
        lemma_tdiv_mag(a as int, b as int);
    }
    if a >= 0 {
        ((a as u128) / (b as u128)) as i128
    } else {
        let na: i128 = -a;
        let q0: u128 = (na as u128) / (b as u128);
        proof {
            lemma_div_nonincreasing(na as int, b as int);
            lemma_div_pos_is_pos(na as int, b as int);
        }
        -(q0 as i128)
    }
}

/// Integer square root of a `u128`, by bisection.
pub fn isqrt(n: u128) -> (r: u64)
    ensures
        (r as int) * (r as int) <= n as int,
        (n as int) < (r as int + 1) * (r as int + 1),
{
    let mut lo: u128 = 0;
    let mut hi: u128 = 0x1_0000_0000_0000_0000;
    proof {
        assert((hi as int) * (hi as int) > n as int) by (nonlinear_arith)
            requires
                hi == 0x1_0000_0000_0000_0000int,
                (n as int) < 0x1_0000_0000_0000_0000_0000_0000_0000_0000int,
        ;
    }
    while hi - lo > 1
        invariant
            0 <= lo < hi <= 0x1_0000_0000_0000_0000,
            (lo as int) * (lo as int) <= n as int,
            (n as int) < (hi as int) * (hi as int),
        decreases hi - lo,
    {
        let mid: u128 = lo + (hi - lo) / 2;
        proof {
            assert((mid as int) * (mid as int) < 0x1_0000_0000_0000_0000_0000_0000_0000_0000int)
                by (nonlinear_arith)
                requires
                    0 <= (mid as int) && (mid as int) < 0x1_0000_0000_0000_0000int,
            ;
        }
        if mid * mid <= n {
            lo = mid;
        } else {
            hi = mid;
        }
    }
    proof {
        assert((lo as int) < 0x1_0000_0000_0000_0000int);
    }
    lo as u64
}

/// Fixed-point norm of the vector `(x, y)`: the integer square root of the
/// squared norm, in the same fixed-point scale as the coordinates.
pub fn vec_len(x: i64, y: i64) -> (d: i64)
    requires
        -COMP_LIMIT <= x <= COMP_LIMIT,
        -COMP_LIMIT <= y <= COMP_LIMIT,
    ensures
        d >= 0,
        d == sqrt_floor(norm_sq(x as int, y as int)),
        (d as int) * (d as int) <= norm_sq(x as int, y as int),
        norm_sq(x as int, y as int) < (d as int + 1) * (d as int + 1),
        d == 0 <==> x == 0 && y == 0,
{
    proof {
        assert((x as int) * (x as int) <= (COMP_LIMIT as int) * (COMP_LIMIT as int)
            && (x as int) * (x as int) >= 0) by (nonlinear_arith)
            requires
                -(COMP_LIMIT as int) <= (x as int) && (x as int) <= COMP_LIMIT as int,
        ;
        assert((y as int) * (y as int) <= (COMP_LIMIT as int) * (COMP_LIMIT as int)
            && (y as int) * (y as int) >= 0) by (nonlinear_arith)
            requires
                -(COMP_LIMIT as int) <= (y as int) && (y as int) <= COMP_LIMIT as int,
        ;
    }
    let xx: i128 = (x as i128) * (x as i128);
    let yy: i128 = (y as i128) * (y as i128);
    let n: u128 = (xx + yy) as u128;
    let r: u64 = isqrt(n);
    proof {
        assert(n as int == norm_sq(x as int, y as int));
        assert((r as int) <= 600_000_000_000int) by (nonlinear_arith)
            requires
                (r as int) * (r as int) <= n as int,
                (n as int) <= 2int * 400_000_000_000int * 400_000_000_000int,
                (r as int) >= 0,
        ;
        lemma_sqrt_floor_is(n as int, r as int);
        if x == 0 && y == 0 {
            assert((r as int) * (r as int) <= 0);
            assert(r == 0) by (nonlinear_arith)
                requires
                    (r as int) >= 0,
                    (r as int) * (r as int) <= 0,
            ;
        }
        if r == 0 {
            assert((n as int) < (0int + 1) * (0int + 1));
            assert(norm_sq(x as int, y as int) < 1);
            assert(x == 0 && y == 0) by (nonlinear_arith)
                requires
                    (x as int) * (x as int) + (y as int) * (y as int) < 1,
            ;
        }
    }
    r as i64
}

} // verus!
