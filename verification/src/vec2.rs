//! Vectors in the plane with fixed-point components.

use vstd::prelude::*;
use crate::fixed::{clamp, fixed, floor_sqrt, isqrt, lemma_product_bound, saturate, Fixed};

verus! {

/// A vector, or a point, in the plane.
#[derive(Debug, Clone, Copy, PartialEq, Eq, Structural)]
pub struct Vec2 {
    pub x: Fixed,
    pub y: Fixed,
}

/// The squared length of the vector with raw components `x` and `y`.
pub open spec fn squared_length(x: int, y: int) -> nat {
    (x * x + y * y) as nat
}

/// The vector with raw components `x` and `y`.
pub open spec fn vec2_of(x: int, y: int) -> Vec2 {
    Vec2 { x: fixed(x), y: fixed(y) }
}

impl Vec2 {
    pub fn new(x: Fixed, y: Fixed) -> (v: Vec2)
        ensures
            v == (Vec2 { x, y }),
    {
        Vec2 { x, y }
    }

    /// The vector with both components equal to `value`.
    pub fn splat(value: Fixed) -> (v: Vec2)
        ensures
            v == (Vec2 { x: value, y: value }),
    {
        Vec2 { x: value, y: value }
    }

    /// The zero vector.
    pub fn zero() -> (v: Vec2)
        ensures
            v == vec2_of(0, 0),
    {
        Vec2 { x: Fixed::from_raw(0), y: Fixed::from_raw(0) }
    }

    pub open spec fn spec_add(self, other: Vec2) -> Vec2 {
        Vec2 { x: self.x.add(other.x), y: self.y.add(other.y) }
    }

    #[verifier::when_used_as_spec(spec_add)]
    pub fn add(self, other: Vec2) -> (v: Vec2)
        ensures
            v == self.spec_add(other),
    {
        Vec2 { x: self.x.add(other.x), y: self.y.add(other.y) }
    }

    pub open spec fn spec_sub(self, other: Vec2) -> Vec2 {
        Vec2 { x: self.x.sub(other.x), y: self.y.sub(other.y) }
    }

    #[verifier::when_used_as_spec(spec_sub)]
    pub fn sub(self, other: Vec2) -> (v: Vec2)
        ensures
            v == self.spec_sub(other),
    {
        Vec2 { x: self.x.sub(other.x), y: self.y.sub(other.y) }
    }

    pub open spec fn spec_neg(self) -> Vec2 {
        Vec2 { x: self.x.neg(), y: self.y.neg() }
    }

    #[verifier::when_used_as_spec(spec_neg)]
    pub fn neg(self) -> (v: Vec2)
        ensures
            v == self.spec_neg(),
    {
        Vec2 { x: self.x.neg(), y: self.y.neg() }
    }

    /// The vector of the absolute values of the components.
    pub open spec fn spec_abs(self) -> Vec2 {
        Vec2 { x: self.x.abs(), y: self.y.abs() }
    }

    /// The vector of the absolute values of the components.
    #[verifier::when_used_as_spec(spec_abs)]
    pub fn abs(self) -> (v: Vec2)
        ensures
            v == self.spec_abs(),
    {
        Vec2 { x: self.x.abs(), y: self.y.abs() }
    }

    /// The product with the scalar `k`, each component rounded toward zero.
    pub open spec fn spec_scale(self, k: Fixed) -> Vec2 {
        Vec2 { x: self.x.mul(k), y: self.y.mul(k) }
    }

    /// The product with the scalar `k`, each component rounded toward zero.
    #[verifier::when_used_as_spec(spec_scale)]
    pub fn scale(self, k: Fixed) -> (v: Vec2)
        ensures
            v == self.spec_scale(k),
    {
        Vec2 { x: self.x.mul(k), y: self.y.mul(k) }
    }

    /// The product with the whole number `k`.
    pub open spec fn spec_mul_int(self, k: i64) -> Vec2 {
        Vec2 { x: self.x.mul_int(k), y: self.y.mul_int(k) }
    }

    /// The product with the whole number `k`.
    #[verifier::when_used_as_spec(spec_mul_int)]
    pub fn mul_int(self, k: i64) -> (v: Vec2)
        ensures
            v == self.spec_mul_int(k),
    {
        Vec2 { x: self.x.mul_int(k), y: self.y.mul_int(k) }
    }

    /// The quotient by the positive whole number `k`, rounded toward zero.
    pub open spec fn spec_div_int(self, k: i64) -> Vec2
        recommends
            k > 0,
    {
        Vec2 { x: self.x.div_int(k), y: self.y.div_int(k) }
    }

    /// The quotient by the positive whole number `k`, rounded toward zero.
    #[verifier::when_used_as_spec(spec_div_int)]
    pub fn div_int(self, k: i64) -> (v: Vec2)
        requires
            k > 0,
        ensures
            v == self.spec_div_int(k),
    {
        Vec2 { x: self.x.div_int(k), y: self.y.div_int(k) }
    }

    /// The inner product: each product is rounded toward zero, and the sum is
    /// held in range.
    pub open spec fn spec_dot(self, other: Vec2) -> Fixed {
        self.x.mul(other.x).add(self.y.mul(other.y))
    }

    /// The inner product.
    #[verifier::when_used_as_spec(spec_dot)]
    pub fn dot(self, other: Vec2) -> (r: Fixed)
        ensures
            r == self.spec_dot(other),
    {
        self.x.mul(other.x).add(self.y.mul(other.y))
    }

    /// The squared length, in squared raw counts. It is exact: two squares of
    /// 64-bit numbers fit in 128 bits.
    pub fn length_squared(self) -> (r: u128)
        ensures
            r == squared_length(self.x@, self.y@),
    {
        proof {
            lemma_product_bound(self.x@, self.x@);
            lemma_product_bound(self.y@, self.y@);
            assert(self.x@ * self.x@ >= 0) by (nonlinear_arith);
            assert(self.y@ * self.y@ >= 0) by (nonlinear_arith);
        }
        let xx: i128 = (self.x.raw as i128) * (self.x.raw as i128);
        let yy: i128 = (self.y.raw as i128) * (self.y.raw as i128);
        (xx as u128) + (yy as u128)
    }

    /// The length, rounded down and held in range.
    pub open spec fn spec_length(self) -> Fixed {
        fixed(clamp(floor_sqrt(squared_length(self.x@, self.y@)) as int))
    }

    /// The length, rounded down and held in range.
    #[verifier::when_used_as_spec(spec_length)]
    pub fn length(self) -> (r: Fixed)
        ensures
            r == self.spec_length(),
    {
        let root: u64 = isqrt(self.length_squared());
        saturate(root as i128)
    }
}

} // verus!
