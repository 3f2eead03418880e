//! A point in the plane with exact integer coordinates, its squared
//! Euclidean norm, and its distance from the origin.

use vstd::math::abs;
use vstd::prelude::*;

use crate::isqrt::is_sqrt_floor;
use crate::isqrt::isqrt;

verus! {

/// The squared Euclidean norm of the vector `(x, y)`.
pub open spec fn norm_sq_of(x: int, y: int) -> int {
    x * x + y * y
}

/// A point in the plane. Construction stores the two coordinates verbatim:
/// there is no validation and no range restriction.
pub struct Point {
    pub x: i64,
    pub y: i64,
}

impl Point {
    /// Makes the point `(x, y)`. Total: always succeeds, stores the inputs
    /// verbatim.
    pub fn new(x: i64, y: i64) -> (p: Point)
        ensures
            p.x == x,
            p.y == y,
    {
        Point { x, y }
    }

    /// The squared distance of the point from the origin, computed exactly:
    /// the widened arithmetic cannot overflow for any coordinates.
    pub fn norm_sq(&self) -> (n: u128)
        ensures
            n == norm_sq_of(self.x as int, self.y as int),
    {
        let xw: i128 = self.x as i128;
        let yw: i128 = self.y as i128;
        proof {
            assert(0 <= xw * xw && xw * xw <= 0x8000_0000_0000_0000i128 * 0x8000_0000_0000_0000i128)
                by (nonlinear_arith)
                requires
                    -0x8000_0000_0000_0000i128 <= xw && xw <= 0x7fff_ffff_ffff_ffffi128,
            ;
            assert(0 <= yw * yw && yw * yw <= 0x8000_0000_0000_0000i128 * 0x8000_0000_0000_0000i128)
                by (nonlinear_arith)
                requires
                    -0x8000_0000_0000_0000i128 <= yw && yw <= 0x7fff_ffff_ffff_ffffi128,
            ;
        }
        let xx: i128 = xw * xw;
        let yy: i128 = yw * yw;
        (xx as u128) + (yy as u128)
    }

    /// The distance of the point from the origin, rounded down to an
    /// integer: the integer square root of the squared norm. When the
    /// squared norm is a perfect square the result is the exact Euclidean
    /// distance.
    pub fn distance(&self) -> (d: u64)
        ensures
            is_sqrt_floor(norm_sq_of(self.x as int, self.y as int), d as int),
    {
        let n: u128 = self.norm_sq();
        let r: u128 = isqrt(n);
        r as u64
    }
}

/// The distance from the origin is an even function of each coordinate: a
/// point and its reflections across either or both axes are all equally
/// far from the origin.
pub proof fn lemma_distance_symmetry(x: int, y: int, d: int)
    requires
        is_sqrt_floor(norm_sq_of(x, y), d),
    ensures
        is_sqrt_floor(norm_sq_of(-x, y), d),
        is_sqrt_floor(norm_sq_of(x, -y), d),
        is_sqrt_floor(norm_sq_of(-x, -y), d),
{
    assert((-x) * (-x) == x * x && (-y) * (-y) == y * y) by (nonlinear_arith);
}

/// Scaling both coordinates by a factor `k` scales the distance from the
/// origin by `|k|`, whenever the unscaled distance is exact, that is, the
/// squared norm is a perfect square. (When the norm is irrational the
/// rounded distances need not be proportional.)
pub proof fn lemma_distance_scaling(x: int, y: int, k: int, d: int)
    requires
        0 <= d,
        d * d == norm_sq_of(x, y),
    ensures
        is_sqrt_floor(norm_sq_of(k * x, k * y), abs(k) * d),
{
    let a: int = if k < 0 {
        -k
    } else {
        k
    };
    assert(abs(k) == a);
    let m: int = a * d;
    assert((k * x) * (k * x) + (k * y) * (k * y) == m * m && 0 <= m) by (nonlinear_arith)
        requires
            0 <= d,
            d * d == x * x + y * y,
            m == a * d,
            a == k || a == -k,
            0 <= a,
    ;
    assert(m * m < (m + 1) * (m + 1)) by (nonlinear_arith)
        requires
            0 <= m,
    ;
    assert(is_sqrt_floor(norm_sq_of(k * x, k * y), abs(k) * d));
}

} // verus!
