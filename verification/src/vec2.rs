//! Fixed-point plane vectors.

use vstd::prelude::*;
use crate::numeric::{abs, div_trunc, isqrt, lemma_mul_bound, quotient, sqrt_floor, SCALE};

verus! {

/// Largest component magnitude for which every vector operation is defined.
pub const SPAN: i64 = 1_000_000_000_000;

/// A vector of the plane, each component in thousandths.
#[derive(Clone, Copy, Debug, PartialEq, Eq, Structural)]
pub struct Vec2 {
    pub x: i64,
    pub y: i64,
}

impl Vec2 {
    /// Both components are at most `bound` in magnitude.
    pub open spec fn within(self, bound: int) -> bool {
        abs(self.x as int) <= bound && abs(self.y as int) <= bound
    }

    /// Scalar product, in millionths.
    pub open spec fn dot_spec(self, other: Vec2) -> int {
        self.x * other.x + self.y * other.y
    }

    /// Signed area spanned with `other`, in millionths: positive where
    /// `other` lies counter-clockwise of `self`.
    pub open spec fn perp_dot_spec(self, other: Vec2) -> int {
        self.x * other.y - self.y * other.x
    }

    /// Squared length, in millionths.
    pub open spec fn length_squared_spec(self) -> int {
        self.x * self.x + self.y * self.y
    }

    /// Length in thousandths, rounded down.
    pub open spec fn length_spec(self) -> int {
        sqrt_floor(self.length_squared_spec())
    }

    /// The sum.
    pub open spec fn plus_spec(self, other: Vec2) -> Vec2 {
        Vec2 { x: (self.x + other.x) as i64, y: (self.y + other.y) as i64 }
    }

    /// The difference.
    pub open spec fn minus_spec(self, other: Vec2) -> Vec2 {
        Vec2 { x: (self.x - other.x) as i64, y: (self.y - other.y) as i64 }
    }

    /// The vector mirrored in the x axis. As a turn it is the opposite turn:
    /// the product of a unit vector and its mirror image is no turn at all.
    pub open spec fn mirrored_spec(self) -> Vec2 {
        Vec2 { x: self.x, y: (-self.y) as i64 }
    }

    /// Whether the vector has length one, within the rounding of its
    /// components to thousandths.
    pub open spec fn is_unit_spec(self) -> bool {
        998_000 <= self.length_squared_spec() <= 1_002_000
    }

    /// The vector scaled to length one (a thousand thousandths), each
    /// component rounded toward zero; the zero vector stays zero.
    pub open spec fn normalized_spec(self) -> Vec2 {
        if self.length_spec() == 0 {
            Vec2 { x: 0, y: 0 }
        } else {
            Vec2 {
                x: div_trunc(self.x * SCALE, self.length_spec()) as i64,
                y: div_trunc(self.y * SCALE, self.length_spec()) as i64,
            }
        }
    }

    /// The complex product of `self` and `other`, brought back to
    /// thousandths with each component rounded toward zero. Where `self` has
    /// length one this is `other` turned by the angle of `self`.
    pub open spec fn rotate_spec(self, other: Vec2) -> Vec2 {
        Vec2 {
            x: div_trunc(self.x * other.x - self.y * other.y, SCALE as int) as i64,
            y: div_trunc(self.y * other.x + self.x * other.y, SCALE as int) as i64,
        }
    }

    /// The vector stretched by `factor` thousandths, each component rounded
    /// toward zero.
    pub open spec fn scaled_spec(self, factor: int) -> Vec2 {
        Vec2 {
            x: div_trunc(self.x * factor, SCALE as int) as i64,
            y: div_trunc(self.y * factor, SCALE as int) as i64,
        }
    }

    pub fn new(x: i64, y: i64) -> (v: Vec2)
        ensures
            v.x == x,
            v.y == y,
    {
        Vec2 { x, y }
    }

    /// Whether both components are at most `bound` in magnitude.
    pub fn fits(&self, bound: i64) -> (b: bool)
        requires
            bound >= 0,
        ensures
            b == self.within(bound as int),
    {
        -bound <= self.x && self.x <= bound && -bound <= self.y && self.y <= bound
    }

    pub fn plus(self, other: Vec2) -> (v: Vec2)
        requires
            self.within(SPAN as int),
            other.within(SPAN as int),
        ensures
            v == self.plus_spec(other),
            v.x == self.x + other.x,
            v.y == self.y + other.y,
    {
        Vec2 { x: self.x + other.x, y: self.y + other.y }
    }

    pub fn minus(self, other: Vec2) -> (v: Vec2)
        requires
            self.within(SPAN as int),
            other.within(SPAN as int),
        ensures
            v == self.minus_spec(other),
            v.x == self.x - other.x,
            v.y == self.y - other.y,
    {
        Vec2 { x: self.x - other.x, y: self.y - other.y }
    }

    pub fn mirrored(self) -> (v: Vec2)
        requires
            self.within(SPAN as int),
        ensures
            v == self.mirrored_spec(),
            forall|bound: int| self.within(bound) ==> #[trigger] v.within(bound),
    {
        Vec2 { x: self.x, y: -self.y }
    }

    /// Whether the vector has length one, within the rounding of its
    /// components to thousandths.
    pub fn is_unit(self) -> (b: bool)
        requires
            self.within(SPAN as int),
        ensures
            b == self.is_unit_spec(),
    {
        let squared: i128 = self.length_squared();
        998_000 <= squared && squared <= 1_002_000
    }

    pub fn dot(self, other: Vec2) -> (d: i128)
        requires
            self.within(SPAN as int),
            other.within(SPAN as int),
        ensures
            d == self.dot_spec(other),
    {
        proof {
            lemma_mul_bound(self.x as int, other.x as int, SPAN as int, SPAN as int);
            lemma_mul_bound(self.y as int, other.y as int, SPAN as int, SPAN as int);
        }
        (self.x as i128) * (other.x as i128) + (self.y as i128) * (other.y as i128)
    }

    pub fn perp_dot(self, other: Vec2) -> (d: i128)
        requires
            self.within(SPAN as int),
            other.within(SPAN as int),
        ensures
            d == self.perp_dot_spec(other),
    {
        proof {
            lemma_mul_bound(self.x as int, other.y as int, SPAN as int, SPAN as int);
            lemma_mul_bound(self.y as int, other.x as int, SPAN as int, SPAN as int);
        }
        (self.x as i128) * (other.y as i128) - (self.y as i128) * (other.x as i128)
    }

    pub fn length_squared(self) -> (d: i128)
        requires
            self.within(SPAN as int),
        ensures
            d == self.length_squared_spec(),
            d >= 0,
    {
        proof {
            lemma_mul_bound(self.x as int, self.x as int, SPAN as int, SPAN as int);
            lemma_mul_bound(self.y as int, self.y as int, SPAN as int, SPAN as int);
            assert(self.x * self.x >= 0) by (nonlinear_arith);
            assert(self.y * self.y >= 0) by (nonlinear_arith);
        }
        (self.x as i128) * (self.x as i128) + (self.y as i128) * (self.y as i128)
    }

    pub fn length(self) -> (d: i64)
        requires
            self.within(SPAN as int),
        ensures
            d == self.length_spec(),
            0 <= d <= 2 * SPAN,
            d == 0 <==> (self.x == 0 && self.y == 0),
            abs(self.x as int) <= d,
            abs(self.y as int) <= d,
    {
        let squared: i128 = self.length_squared();
        let root: u64 = isqrt(squared as u128);
        proof {
            lemma_length_bounds(self, root as int);
        }
        root as i64
    }

    pub fn normalized(self) -> (v: Vec2)
        requires
            self.within(SPAN as int),
        ensures
            v == self.normalized_spec(),
            v.within(SCALE as int),
    {
        let len: i64 = self.length();
        if len == 0 {
            Vec2 { x: 0, y: 0 }
        } else {
            proof {
                lemma_mul_bound(self.x as int, SCALE as int, SPAN as int, SCALE as int);
                lemma_mul_bound(self.y as int, SCALE as int, SPAN as int, SCALE as int);
                lemma_unit_component(self.x as int, len as int);
                lemma_unit_component(self.y as int, len as int);
            }
            let x: i128 = quotient((self.x as i128) * (SCALE as i128), len as i128);
            let y: i128 = quotient((self.y as i128) * (SCALE as i128), len as i128);
            Vec2 { x: x as i64, y: y as i64 }
        }
    }

    pub fn rotate(self, other: Vec2) -> (v: Vec2)
        requires
            self.within(SCALE as int),
            other.within(SPAN as int),
        ensures
            v == self.rotate_spec(other),
            forall|bound: int|
                other.within(bound) ==> #[trigger] v.within(2 * bound),
    {
        proof {
            lemma_mul_bound(self.x as int, other.x as int, SCALE as int, SPAN as int);
            lemma_mul_bound(self.y as int, other.y as int, SCALE as int, SPAN as int);
            lemma_mul_bound(self.y as int, other.x as int, SCALE as int, SPAN as int);
            lemma_mul_bound(self.x as int, other.y as int, SCALE as int, SPAN as int);
        }
        let re: i128 = (self.x as i128) * (other.x as i128) - (self.y as i128) * (other.y as i128);
        let im: i128 = (self.y as i128) * (other.x as i128) + (self.x as i128) * (other.y as i128);
        let x: i128 = quotient(re, SCALE as i128);
        let y: i128 = quotient(im, SCALE as i128);
        proof {
            assert forall|bound: int| other.within(bound) implies abs(x as int) <= 2 * bound && abs(
                y as int,
            ) <= 2 * bound by {
                lemma_mul_bound(self.x as int, other.x as int, SCALE as int, bound);
                lemma_mul_bound(self.y as int, other.y as int, SCALE as int, bound);
                lemma_mul_bound(self.y as int, other.x as int, SCALE as int, bound);
                lemma_mul_bound(self.x as int, other.y as int, SCALE as int, bound);
                lemma_scaled_quotient(re as int, bound);
                lemma_scaled_quotient(im as int, bound);
            }
            lemma_mul_bound(self.x as int, other.x as int, SCALE as int, SPAN as int);
            lemma_scaled_quotient(re as int, SPAN as int);
            lemma_scaled_quotient(im as int, SPAN as int);
        }
        Vec2 { x: x as i64, y: y as i64 }
    }

    /// The vector stretched by `factor` thousandths.
    pub fn scaled(self, factor: i64) -> (v: Vec2)
        requires
            self.within(SCALE as int),
            0 <= factor <= SPAN,
        ensures
            v == self.scaled_spec(factor as int),
            v.within(factor as int),
    {
        proof {
            lemma_mul_bound(self.x as int, factor as int, SCALE as int, factor as int);
            lemma_mul_bound(self.y as int, factor as int, SCALE as int, factor as int);
            lemma_stretch(self.x as int, factor as int);
            lemma_stretch(self.y as int, factor as int);
        }
        let x: i128 = quotient((self.x as i128) * (factor as i128), SCALE as i128);
        let y: i128 = quotient((self.y as i128) * (factor as i128), SCALE as i128);
        Vec2 { x: x as i64, y: y as i64 }
    }
}

/// The rounded-down length dominates both components and vanishes only for
/// the zero vector.
pub proof fn lemma_length_bounds(v: Vec2, root: int)
    requires
        v.within(SPAN as int),
        crate::numeric::is_sqrt_floor(v.length_squared_spec(), root),
    ensures
        0 <= root <= 2 * SPAN,
        root == 0 <==> (v.x == 0 && v.y == 0),
        abs(v.x as int) <= root,
        abs(v.y as int) <= root,
{
    let x = v.x as int;
    let y = v.y as int;
    let n = v.length_squared_spec();
    assert(x * x >= 0 && y * y >= 0) by (nonlinear_arith);
    assert(abs(x) <= root) by (nonlinear_arith)
        requires
            x * x <= n,
            n < (root + 1) * (root + 1),
            root >= 0,
            abs(x) == if x < 0 { -x } else { x },
    ;
    assert(abs(y) <= root) by (nonlinear_arith)
        requires
            y * y <= n,
            n < (root + 1) * (root + 1),
            root >= 0,
            abs(y) == if y < 0 { -y } else { y },
    ;
    lemma_mul_bound(x, x, SPAN as int, SPAN as int);
    lemma_mul_bound(y, y, SPAN as int, SPAN as int);
    assert(root <= 2 * SPAN) by (nonlinear_arith)
        requires
            root * root <= n,
            n <= 2 * (SPAN * SPAN),
            root >= 0,
            SPAN == 1_000_000_000_000,
    ;
    if x == 0 && y == 0 {
        assert(root == 0) by (nonlinear_arith)
            requires
                root * root <= n,
                n == x * x + y * y,
                x == 0,
                y == 0,
                root >= 0,
        ;
    }
}

/// A component scaled to unit length stays within one unit.
pub proof fn lemma_unit_component(c: int, len: int)
    requires
        abs(c) <= len,
        len > 0,
    ensures
        abs(div_trunc(c * SCALE, len)) <= SCALE,
{
    if c >= 0 {
        assert((c * SCALE) / len <= SCALE) by (nonlinear_arith)
            requires
                0 <= c <= len,
                len > 0,
        ;
        assert((c * SCALE) / len >= 0) by (nonlinear_arith)
            requires
                0 <= c,
                len > 0,
        ;
    } else {
        assert((-(c * SCALE)) / len <= SCALE) by (nonlinear_arith)
            requires
                0 <= -c <= len,
                len > 0,
        ;
        assert((-(c * SCALE)) / len >= 0) by (nonlinear_arith)
            requires
                0 <= -c,
                len > 0,
        ;
    }
}

/// Dividing a sum of two products of a unit component by one unit leaves at
/// most twice the bound.
pub proof fn lemma_scaled_quotient(n: int, bound: int)
    requires
        abs(n) <= 2 * (SCALE * bound),
    ensures
        abs(div_trunc(n, SCALE as int)) <= 2 * bound,
{
    if n >= 0 {
        assert(n / 1000 <= 2 * bound) by (nonlinear_arith)
            requires
                0 <= n <= 2 * (1000 * bound),
        ;
        assert(n / 1000 >= 0) by (nonlinear_arith)
            requires
                0 <= n,
        ;
    } else {
        assert((-n) / 1000 <= 2 * bound) by (nonlinear_arith)
            requires
                0 <= -n <= 2 * (1000 * bound),
        ;
        assert((-n) / 1000 >= 0) by (nonlinear_arith)
            requires
                0 <= -n,
        ;
    }
}

/// A unit component stretched by a factor stays within the factor.
pub proof fn lemma_stretch(c: int, factor: int)
    requires
        abs(c) <= SCALE,
        factor >= 0,
    ensures
        abs(div_trunc(c * factor, SCALE as int)) <= factor,
{
    if c * factor >= 0 {
        assert((c * factor) / 1000 <= factor) by (nonlinear_arith)
            requires
                0 <= c * factor,
                c <= 1000,
                -1000 <= c,
                factor >= 0,
        ;
        assert((c * factor) / 1000 >= 0) by (nonlinear_arith)
            requires
                0 <= c * factor,
        ;
    } else {
        assert((-(c * factor)) / 1000 <= factor) by (nonlinear_arith)
            requires
                0 < -(c * factor),
                c <= 1000,
                -1000 <= c,
                factor >= 0,
        ;
        assert((-(c * factor)) / 1000 >= 0) by (nonlinear_arith)
            requires
                0 < -(c * factor),
        ;
    }
}

} // verus!

