//! Plane vectors over checked fixed-point scalars.

use crate::scalar::{checked, floor_sqrt, isqrt, trunc_div, Scalar, SCALE};
use vstd::prelude::*;

verus! {

/// A vector in the plane.
#[derive(Clone, Copy, Debug, PartialEq, Eq, Structural)]
pub struct Vec2 {
    pub x: Scalar,
    pub y: Scalar,
}

/// Pairs two optional components into an optional vector.
pub open spec fn both(x: Option<Scalar>, y: Option<Scalar>) -> Option<Vec2> {
    match (x, y) {
        (Some(x), Some(y)) => Some(Vec2 { x, y }),
        _ => None,
    }
}

/// The product of two raw values is bounded by the square of the widest one.
pub proof fn lemma_raw_product_bound(a: int, b: int)
    requires
        -0x8000_0000_0000_0000 <= a < 0x8000_0000_0000_0000,
        -0x8000_0000_0000_0000 <= b < 0x8000_0000_0000_0000,
    ensures
        -0x3FFF_FFFF_FFFF_FFFF_8000_0000_0000_0000 <= a * b
            <= 0x4000_0000_0000_0000_0000_0000_0000_0000,
{
    assert(-0x3FFF_FFFF_FFFF_FFFF_8000_0000_0000_0000 <= a * b
        <= 0x4000_0000_0000_0000_0000_0000_0000_0000) by (nonlinear_arith)
        requires
            -0x8000_0000_0000_0000 <= a < 0x8000_0000_0000_0000,
            -0x8000_0000_0000_0000 <= b < 0x8000_0000_0000_0000,
    ;
}

/// The scalar for a wide signed raw value, if it is representable.
fn from_wide(v: i128) -> (r: Option<Scalar>)
    ensures
        r == checked(v as int),
{
    if -9_223_372_036_854_775_807 <= v && v <= 9_223_372_036_854_775_807 {
        Some(Scalar { raw: v as i64 })
    } else {
        None
    }
}

/// Quotient of a wide raw value by the scale, rounded toward zero.
fn unscale(v: i128) -> (r: Option<Scalar>)
    requires
        v > i128::MIN,
    ensures
        r == checked(trunc_div(v as int, SCALE as int)),
{
    if v >= 0 {
        let q: i128 = v / 1_000_000;
        from_wide(q)
    } else {
        let m: i128 = -v;
        let q: i128 = m / 1_000_000;
        from_wide(-q)
    }
}

impl Vec2 {
    /// Component-wise sum.
    pub open spec fn spec_add(self, rhs: Vec2) -> Option<Vec2> {
        both(self.x.spec_add(rhs.x), self.y.spec_add(rhs.y))
    }

    /// Component-wise difference.
    pub open spec fn spec_sub(self, rhs: Vec2) -> Option<Vec2> {
        both(self.x.spec_sub(rhs.x), self.y.spec_sub(rhs.y))
    }

    /// The opposite vector.
    pub open spec fn spec_neg(self) -> Option<Vec2> {
        both(self.x.spec_neg(), self.y.spec_neg())
    }

    /// Each component multiplied by `s`.
    pub open spec fn spec_scale(self, s: Scalar) -> Option<Vec2> {
        both(self.x.spec_mul(s), self.y.spec_mul(s))
    }

    /// Each component divided by `s`.
    pub open spec fn spec_div(self, s: Scalar) -> Option<Vec2> {
        both(self.x.spec_div(s), self.y.spec_div(s))
    }

    /// Sum of the squared raw components.
    pub open spec fn raw_norm_squared(self) -> int {
        self.x@ * self.x@ + self.y@ * self.y@
    }

    /// Euclidean length, rounded down.
    pub open spec fn spec_length(self) -> Option<Scalar> {
        checked(floor_sqrt(self.raw_norm_squared()))
    }

    /// Squared Euclidean length, rounded down.
    pub open spec fn spec_length_squared(self) -> Option<Scalar> {
        checked(self.raw_norm_squared() / (SCALE as int))
    }

    /// The vector divided by its own length.
    pub open spec fn spec_normalize(self) -> Option<Vec2> {
        match self.spec_length() {
            Some(len) => self.spec_div(len),
            None => None,
        }
    }

    /// The scalar cross product `self.x * rhs.y - self.y * rhs.x`, rounded
    /// toward zero.
    pub open spec fn spec_cross(self, rhs: Vec2) -> Option<Scalar> {
        checked(trunc_div(self.x@ * rhs.y@ - self.y@ * rhs.x@, SCALE as int))
    }

    /// The vector with the given components.
    pub fn new(x: Scalar, y: Scalar) -> (r: Vec2)
        ensures
            r == (Vec2 { x, y }),
    {
        Vec2 { x, y }
    }

    /// The zero vector.
    pub fn zero() -> (r: Vec2)
        ensures
            r.x@ == 0,
            r.y@ == 0,
    {
        Vec2 { x: Scalar { raw: 0 }, y: Scalar { raw: 0 } }
    }

    /// Checked component-wise sum.
    pub fn add(self, rhs: Vec2) -> (r: Option<Vec2>)
        ensures
            r == self.spec_add(rhs),
    {
        match (self.x.add(rhs.x), self.y.add(rhs.y)) {
            (Some(x), Some(y)) => Some(Vec2 { x, y }),
            _ => None,
        }
    }

    /// Checked component-wise difference.
    pub fn sub(self, rhs: Vec2) -> (r: Option<Vec2>)
        ensures
            r == self.spec_sub(rhs),
    {
        match (self.x.sub(rhs.x), self.y.sub(rhs.y)) {
            (Some(x), Some(y)) => Some(Vec2 { x, y }),
            _ => None,
        }
    }

    /// Checked opposite.
    pub fn neg(self) -> (r: Option<Vec2>)
        ensures
            r == self.spec_neg(),
    {
        match (self.x.neg(), self.y.neg()) {
            (Some(x), Some(y)) => Some(Vec2 { x, y }),
            _ => None,
        }
    }

    /// Checked multiplication of each component by `s`.
    pub fn scale(self, s: Scalar) -> (r: Option<Vec2>)
        ensures
            r == self.spec_scale(s),
    {
        match (self.x.mul(s), self.y.mul(s)) {
            (Some(x), Some(y)) => Some(Vec2 { x, y }),
            _ => None,
        }
    }

    /// Checked division of each component by `s`.
    pub fn div(self, s: Scalar) -> (r: Option<Vec2>)
        ensures
            r == self.spec_div(s),
    {
        match (self.x.div(s), self.y.div(s)) {
            (Some(x), Some(y)) => Some(Vec2 { x, y }),
            _ => None,
        }
    }

    /// Sum of the squared raw components, which always fits.
    fn norm_squared_wide(self) -> (r: u128)
        ensures
            r == self.raw_norm_squared(),
    {
        proof {
            lemma_raw_product_bound(self.x@, self.x@);
            lemma_raw_product_bound(self.y@, self.y@);
            assert(self.x@ * self.x@ >= 0 && self.y@ * self.y@ >= 0) by (nonlinear_arith);
        }
        let xx: i128 = (self.x.raw as i128) * (self.x.raw as i128);
        let yy: i128 = (self.y.raw as i128) * (self.y.raw as i128);
        (xx as u128) + (yy as u128)
    }

    /// Checked Euclidean length.
    pub fn length(self) -> (r: Option<Scalar>)
        ensures
            r == self.spec_length(),
    {
        let n: u128 = self.norm_squared_wide();
        let root: u128 = isqrt(n);
        if root > 9_223_372_036_854_775_807 {
            None
        } else {
            Some(Scalar { raw: root as i64 })
        }
    }

    /// Checked squared Euclidean length.
    pub fn length_squared(self) -> (r: Option<Scalar>)
        ensures
            r == self.spec_length_squared(),
    {
        let n: u128 = self.norm_squared_wide();
        let q: u128 = n / 1_000_000;
        if q > 9_223_372_036_854_775_807 {
            None
        } else {
            Some(Scalar { raw: q as i64 })
        }
    }

    /// Checked unit vector along `self`.
    pub fn normalize(self) -> (r: Option<Vec2>)
        ensures
            r == self.spec_normalize(),
    {
        match self.length() {
            Some(len) => self.div(len),
            None => None,
        }
    }

    /// Checked scalar cross product.
    pub fn cross(self, rhs: Vec2) -> (r: Option<Scalar>)
        ensures
            r == self.spec_cross(rhs),
    {
        proof {
            lemma_raw_product_bound(self.x@, rhs.y@);
            lemma_raw_product_bound(self.y@, rhs.x@);
        }
        let a: i128 = (self.x.raw as i128) * (rhs.y.raw as i128);
        let b: i128 = (self.y.raw as i128) * (rhs.x.raw as i128);
        unscale(a - b)
    }
}

} // verus!
