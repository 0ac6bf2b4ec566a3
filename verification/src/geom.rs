//! Fixed-point plane geometry: coordinates, rotations, and the integer
//! arithmetic helpers the tessellators build on.
//!
//! A coordinate is a plain `i64` unit count. A rotation or scale factor is an
//! `i64` fraction with `FX_ONE` standing for one. Every division in this
//! library rounds toward negative infinity (floor); that convention is part
//! of each contract.

use vstd::arithmetic::div_mod::{
    lemma_div_is_ordered, lemma_fundamental_div_mod, lemma_fundamental_div_mod_converse,
    lemma_div_multiples_vanish,
};
use vstd::prelude::*;

verus! {

/// One, as a fixed-point fraction: rotations and scales are `i64` multiples
/// of `1 / FX_ONE`.
pub const FX_ONE: i64 = 65536;

/// Largest magnitude a caller-supplied coordinate, size, radius or thickness
/// may have. Keeps every intermediate product of the tessellators inside
/// `i64`.
pub const COORD_LIMIT: i64 = 16777216;

/// A coordinate small enough for the tessellators' arithmetic.
pub open spec fn coord_ok(c: int) -> bool {
    -COORD_LIMIT <= c <= COORD_LIMIT
}

/// A point or displacement in the plane, in raw fixed units.
#[derive(Clone, Copy, Debug, PartialEq, Eq, Structural)]
pub struct Vec2 {
    pub x: i64,
    pub y: i64,
}

/// Both components of `v` are within `COORD_LIMIT`.
pub open spec fn vec2_ok(v: Vec2) -> bool {
    coord_ok(v.x as int) && coord_ok(v.y as int)
}

impl Vec2 {
    /// The origin.
    pub fn zero() -> (v: Vec2)
        ensures
            v.x == 0,
            v.y == 0,
    {
        Vec2 { x: 0, y: 0 }
    }
}

/// A rotation, stored as the cosine and sine of its angle scaled by
/// `FX_ONE`. A well-formed rotor lies on or inside the unit circle.
#[derive(Clone, Copy, Debug, PartialEq, Eq, Structural)]
pub struct Rotor {
    pub cos: i64,
    pub sin: i64,
}

/// Both components of `r` are within `FX_ONE` in magnitude, as the cosine
/// and sine of an angle are within one.
pub open spec fn rotor_ok(r: Rotor) -> bool {
    -FX_ONE <= r.cos <= FX_ONE && -FX_ONE <= r.sin <= FX_ONE
}

/// `r` lies on the fixed-point unit circle up to rounding: any correctly
/// rounded cosine–sine pair of a real angle lands in this window.
pub open spec fn rotor_unit(r: Rotor) -> bool {
    FX_ONE * FX_ONE - 2 * FX_ONE <= r.cos * r.cos + r.sin * r.sin <= FX_ONE * FX_ONE + 2 * FX_ONE
}

impl Rotor {
    /// The rotation by zero radians, which moves nothing.
    pub fn identity() -> (r: Rotor)
        ensures
            r.cos == FX_ONE,
            r.sin == 0,
            rotor_ok(r),
    {
        Rotor { cos: FX_ONE, sin: 0 }
    }
}

/// If `|a| <= abound` and `|b| <= bbound` then `|a * b| <= abound * bbound`.
pub proof fn lemma_mul_bound(a: int, b: int, abound: int, bbound: int)
    requires
        -abound <= a <= abound,
        -bbound <= b <= bbound,
        0 <= abound,
        0 <= bbound,
    ensures
        -(abound * bbound) <= a * b <= abound * bbound,
{
    assert(-(abound * bbound) <= a * b <= abound * bbound) by (nonlinear_arith)
        requires
            -abound <= a <= abound,
            -bbound <= b <= bbound,
            0 <= abound,
            0 <= bbound,
    ;
}

/// Dividing by a positive number moves a value toward zero, never past it.
pub proof fn lemma_div_bound(n: int, d: int)
    requires
        d >= 1,
    ensures
        n >= 0 ==> 0 <= n / d <= n,
        n < 0 ==> n <= n / d <= 0,
{
    lemma_fundamental_div_mod(n, d);
    assert((n >= 0 ==> 0 <= n / d <= n) && (n < 0 ==> n <= n / d <= 0)) by (nonlinear_arith)
        requires
            d >= 1,
            n == d * (n / d) + n % d,
            0 <= n % d < d,
    ;
}

/// Floor division stays between the floors of any two multiples that bracket
/// the numerator: if `-b * d <= n <= b * d` then `-b <= n / d <= b`.
pub proof fn lemma_div_bracket(n: int, d: int, b: int)
    requires
        d >= 1,
        0 <= b,
        -(b * d) <= n <= b * d,
    ensures
        -b <= n / d <= b,
{
    lemma_div_is_ordered(-(b * d), n, d);
    lemma_div_is_ordered(n, b * d, d);
    lemma_div_multiples_vanish(b, d);
    lemma_div_multiples_vanish(-b, d);
    assert(d * b == b * d && d * (-b) == -(b * d)) by (nonlinear_arith);
    assert((d * b) / d == (b * d) / d);
    assert((d * (-b)) / d == (-(b * d)) / d);
}

/// Euclidean (floor) division of `a` by a positive `d`, computed with
/// unsigned machine division. This is the one rounding rule the library
/// uses: the result is the greatest integer at most `a / d`.
pub fn floor_div(a: i64, d: i64) -> (q: i64)
    requires
        1 <= d,
        i64::MIN < a,
    ensures
        q == a as int / d as int,
{
    if a >= 0 {
        proof {
            lemma_div_bound(a as int, d as int);
        }
        let q0: u64 = (a as u64) / (d as u64);
        q0 as i64
    } else {
        let m: u64 = (-a) as u64;
        let q0: u64 = (m + (d as u64) - 1) / (d as u64);
        proof {
            let mi = m as int;
            let di = d as int;
            let qi = (mi + di - 1) / di;
            lemma_fundamental_div_mod(mi + di - 1, di);
            let ri = (mi + di - 1) % di;
            assert(mi + di - 1 == di * qi + ri);
            assert(a as int == di * (-qi) + (di - 1 - ri)) by (nonlinear_arith)
                requires
                    mi + di - 1 == di * qi + ri,
                    a as int == -mi,
            ;
            lemma_fundamental_div_mod_converse(a as int, di, -qi, di - 1 - ri);
            assert(qi <= mi) by (nonlinear_arith)
                requires
                    mi + di - 1 == di * qi + ri,
                    0 <= ri,
                    1 <= di,
                    1 <= mi,
            ;
        }
        -(q0 as i64)
    }
}

/// `r` is the integer square root of `n`.
pub open spec fn is_sqrt(n: int, r: int) -> bool {
    0 <= r && r * r <= n && n < (r + 1) * (r + 1)
}

/// The integer square root of `n`, as a spec-level value.
pub open spec fn sqrt_of(n: int) -> int {
    choose|r: int| is_sqrt(n, r)
}

/// A number has at most one integer square root.
pub proof fn lemma_sqrt_unique(n: int, a: int, b: int)
    requires
        is_sqrt(n, a),
        is_sqrt(n, b),
    ensures
        a == b,
{
    assert(a == b) by (nonlinear_arith)
        requires
            0 <= a && a * a <= n && n < (a + 1) * (a + 1),
            0 <= b && b * b <= n && n < (b + 1) * (b + 1),
    ;
}

/// Whatever satisfies `is_sqrt(n, _)` is `sqrt_of(n)`.
pub proof fn lemma_sqrt_of(n: int, r: int)
    requires
        is_sqrt(n, r),
    ensures
        sqrt_of(n) == r,
{
    assert(exists|x: int| is_sqrt(n, x));
    lemma_sqrt_unique(n, sqrt_of(n), r);
}

/// The integer square root, by binary search.
pub fn isqrt_u64(n: u64) -> (r: u64)
    requires
        n < 0x4000000000000000,
    ensures
        is_sqrt(n as int, r as int),
        r as int == sqrt_of(n as int),
{
    let mut lo: u64 = 0;
    let mut hi: u64 = 0x80000000;
    assert(hi * hi > n) by (nonlinear_arith)
        requires
            hi == 0x80000000u64,
            n < 0x4000000000000000,
    ;
    while lo + 1 < hi
        invariant
            lo < hi <= 0x80000000,
            lo * lo <= n,
            n < hi * hi,
        decreases hi - lo,
    {
        let mid: u64 = lo + (hi - lo) / 2;
        assert(lo < mid < hi);
        assert(mid * mid <= 0x80000000u64 * 0x80000000u64) by (nonlinear_arith)
            requires
                mid <= 0x80000000u64,
        ;
        if mid * mid <= n {
            lo = mid;
        } else {
            hi = mid;
        }
    }
    proof {
        lemma_sqrt_of(n as int, lo as int);
    }
    lo
}

/// The first component of rotating `(x, y)` by `r`.
pub open spec fn rot_x(r: Rotor, x: int, y: int) -> int {
    (x * r.cos - y * r.sin) / (FX_ONE as int)
}

/// The second component of rotating `(x, y)` by `r`.
pub open spec fn rot_y(r: Rotor, x: int, y: int) -> int {
    (x * r.sin + y * r.cos) / (FX_ONE as int)
}

/// Rotates `v` by `r`: the fixed-point form of multiplying by the rotation
/// matrix, each component divided by `FX_ONE` with floor rounding.
pub fn rotate(r: Rotor, v: Vec2) -> (w: Vec2)
    requires
        rotor_ok(r),
        vec2_ok(v),
    ensures
        w.x == rot_x(r, v.x as int, v.y as int),
        w.y == rot_y(r, v.x as int, v.y as int),
        -2 * COORD_LIMIT <= w.x <= 2 * COORD_LIMIT,
        -2 * COORD_LIMIT <= w.y <= 2 * COORD_LIMIT,
{
    proof {
        lemma_mul_bound(v.x as int, r.cos as int, COORD_LIMIT as int, FX_ONE as int);
        lemma_mul_bound(v.y as int, r.sin as int, COORD_LIMIT as int, FX_ONE as int);
        lemma_mul_bound(v.x as int, r.sin as int, COORD_LIMIT as int, FX_ONE as int);
        lemma_mul_bound(v.y as int, r.cos as int, COORD_LIMIT as int, FX_ONE as int);
        lemma_div_bracket(
            v.x as int * r.cos - v.y as int * r.sin,
            FX_ONE as int,
            2 * COORD_LIMIT as int,
        );
        lemma_div_bracket(
            v.x as int * r.sin + v.y as int * r.cos,
            FX_ONE as int,
            2 * COORD_LIMIT as int,
        );
        assert(2 * COORD_LIMIT as int * FX_ONE as int == 2 * (COORD_LIMIT as int * FX_ONE as int))
            by (nonlinear_arith);
    }
    let xc = v.x * r.cos;
    let ys = v.y * r.sin;
    let xs = v.x * r.sin;
    let yc = v.y * r.cos;
    Vec2 { x: floor_div(xc - ys, FX_ONE), y: floor_div(xs + yc, FX_ONE) }
}

/// The cosine component of the product of two rotors.
pub open spec fn rmul_cos(a: Rotor, b: Rotor) -> int {
    (a.cos * b.cos - a.sin * b.sin) / (FX_ONE as int)
}

/// The sine component of the product of two rotors.
pub open spec fn rmul_sin(a: Rotor, b: Rotor) -> int {
    (a.cos * b.sin + a.sin * b.cos) / (FX_ONE as int)
}

/// Composes two rotations: the rotor of the summed angles, up to fixed-point
/// rounding. Rounding may push a component just past `FX_ONE`, so the result
/// is only promised to stay within twice that box.
pub fn rotor_mul(a: Rotor, b: Rotor) -> (r: Rotor)
    requires
        rotor_ok(a),
        rotor_ok(b),
    ensures
        r.cos == rmul_cos(a, b),
        r.sin == rmul_sin(a, b),
        -2 * FX_ONE <= r.cos <= 2 * FX_ONE,
        -2 * FX_ONE <= r.sin <= 2 * FX_ONE,
{
    proof {
        lemma_mul_bound(a.cos as int, b.cos as int, FX_ONE as int, FX_ONE as int);
        lemma_mul_bound(a.sin as int, b.sin as int, FX_ONE as int, FX_ONE as int);
        lemma_mul_bound(a.cos as int, b.sin as int, FX_ONE as int, FX_ONE as int);
        lemma_mul_bound(a.sin as int, b.cos as int, FX_ONE as int, FX_ONE as int);
        lemma_div_bracket(a.cos * b.cos - a.sin * b.sin, FX_ONE as int, 2 * FX_ONE as int);
        lemma_div_bracket(a.cos * b.sin + a.sin * b.cos, FX_ONE as int, 2 * FX_ONE as int);
        assert(2 * FX_ONE as int * FX_ONE as int == 2 * (FX_ONE as int * FX_ONE as int))
            by (nonlinear_arith);
    }
    let cc = a.cos * b.cos;
    let ss = a.sin * b.sin;
    let cs = a.cos * b.sin;
    let sc = a.sin * b.cos;
    Rotor { cos: floor_div(cc - ss, FX_ONE), sin: floor_div(cs + sc, FX_ONE) }
}

} // verus!
