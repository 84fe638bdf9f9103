//! Fixed-point scalars: a signed 64-bit count of billionths.
//!
//! Every operation computes the exact integer result, rounds a quotient toward
//! zero and holds the result at the ends of the `i64` range. The view of a
//! `Fixed` is its raw count, so contracts are statements about integers.

use vstd::prelude::*;

verus! {

/// Raw counts per unit: a `Fixed` with raw count `SCALE` is the number one.
pub const SCALE: i64 = 1_000_000_000;

/// A fixed-point number: `raw / SCALE`.
#[derive(Debug, Clone, Copy, PartialEq, Eq, Structural)]
pub struct Fixed {
    pub raw: i64,
}

impl View for Fixed {
    type V = int;

    open spec fn view(&self) -> int {
        self.raw as int
    }
}

/// `v`, held at the ends of the `i64` range.
pub open spec fn clamp(v: int) -> int {
    if v < i64::MIN {
        i64::MIN as int
    } else if v > i64::MAX {
        i64::MAX as int
    } else {
        v
    }
}

/// The quotient of `a` by a positive `b`, rounded toward zero.
pub open spec fn trunc_div(a: int, b: int) -> int
    recommends
        b > 0,
{
    if a >= 0 {
        a / b
    } else {
        -((-a) / b)
    }
}

/// The absolute value of `v`.
pub open spec fn magnitude(v: int) -> int {
    if v < 0 {
        -v
    } else {
        v
    }
}

/// The largest natural number whose square does not exceed `n`.
pub open spec fn floor_sqrt(n: nat) -> nat
    decreases n,
{
    if n == 0 {
        0
    } else {
        let r = floor_sqrt((n - 1) as nat);
        if (r + 1) * (r + 1) <= n {
            r + 1
        } else {
            r
        }
    }
}

/// `floor_sqrt(n)` squared is at most `n`, and the next square exceeds `n`.
pub proof fn lemma_floor_sqrt_bounds(n: nat)
    ensures
        floor_sqrt(n) * floor_sqrt(n) <= n,
        n < (floor_sqrt(n) + 1) * (floor_sqrt(n) + 1),
    decreases n,
{
    if n == 0 {
        assert(floor_sqrt(n) == 0);
        assert(0 * 0 == 0 && (0 + 1) * (0 + 1) == 1) by (nonlinear_arith);
    } else {
        lemma_floor_sqrt_bounds((n - 1) as nat);
        let r = floor_sqrt((n - 1) as nat);
        let s = floor_sqrt(n);
        if (r + 1) * (r + 1) <= n {
            assert(s == r + 1);
            assert((s + 1) * (s + 1) > s * s) by (nonlinear_arith);
        } else {
            assert(s == r);
        }
    }
}

/// Only `floor_sqrt(n)` lies between the two squares.
pub proof fn lemma_floor_sqrt_unique(n: nat, r: nat)
    requires
        r * r <= n,
        n < (r + 1) * (r + 1),
    ensures
        r == floor_sqrt(n),
{
    lemma_floor_sqrt_bounds(n);
    let s = floor_sqrt(n);
    if r < s {
        assert((r + 1) * (r + 1) <= s * s) by (nonlinear_arith)
            requires
                r + 1 <= s,
        ;
    } else if s < r {
        assert((s + 1) * (s + 1) <= r * r) by (nonlinear_arith)
            requires
                s + 1 <= r,
        ;
    }
}

/// The integer square root of a 128-bit number, by bisection.
pub fn isqrt(n: u128) -> (r: u64)
    ensures
        r == floor_sqrt(n as nat),
{
    let mut lo: u128 = 0;
    let mut hi: u128 = 0x1_0000_0000_0000_0000;
    assert(0x1_0000_0000_0000_0000 * 0x1_0000_0000_0000_0000 > u128::MAX) by (nonlinear_arith);
    while hi - lo > 1
        invariant
            lo < hi <= 0x1_0000_0000_0000_0000,
            lo * lo <= n,
            n < hi * hi,
        decreases hi - lo,
    {
        let mid: u128 = lo + (hi - lo) / 2;
        assert(mid * mid < 0x1_0000_0000_0000_0000 * 0x1_0000_0000_0000_0000) by (nonlinear_arith)
            requires
                mid < 0x1_0000_0000_0000_0000,
        ;
        if mid * mid <= n {
            lo = mid;
        } else {
            hi = mid;
        }
    }
    proof {
        lemma_floor_sqrt_unique(n as nat, lo as nat);
    }
    lo as u64
}

/// The product of two 64-bit numbers fits in 128 bits with room to spare.
pub proof fn lemma_product_bound(a: int, b: int)
    requires
        i64::MIN <= a <= i64::MAX,
        i64::MIN <= b <= i64::MAX,
    ensures
        -0x4000_0000_0000_0000_0000_0000_0000_0000 < a * b <= 0x4000_0000_0000_0000_0000_0000_0000_0000,
{
    assert(-0x4000_0000_0000_0000_0000_0000_0000_0000 < a * b
        <= 0x4000_0000_0000_0000_0000_0000_0000_0000) by (nonlinear_arith)
        requires
            -0x8000_0000_0000_0000 <= a <= 0x7fff_ffff_ffff_ffff,
            -0x8000_0000_0000_0000 <= b <= 0x7fff_ffff_ffff_ffff,
    ;
}

/// Holds a 128-bit number at the ends of the `i64` range.
pub fn saturate(v: i128) -> (r: Fixed)
    ensures
        r@ == clamp(v as int),
{
    if v < i64::MIN as i128 {
        Fixed { raw: i64::MIN }
    } else if v > i64::MAX as i128 {
        Fixed { raw: i64::MAX }
    } else {
        Fixed { raw: v as i64 }
    }
}

/// The number with raw count `v`, for a `v` in the `i64` range.
pub open spec fn fixed(v: int) -> Fixed {
    Fixed { raw: v as i64 }
}

/// `value * num / den`, rounded toward zero and held in range.
pub open spec fn ratio(value: int, num: int, den: int) -> Fixed
    recommends
        den > 0,
{
    fixed(clamp(trunc_div(value * num, den)))
}

/// `value * num / den`, rounded toward zero and held in range.
pub fn scale_ratio(value: i64, num: i64, den: i128) -> (r: Fixed)
    requires
        den > 0,
    ensures
        r == ratio(value as int, num as int, den as int),
        r@ == clamp(trunc_div(value * num, den as int)),
{
    proof {
        lemma_product_bound(value as int, num as int);
    }
    let product: i128 = (value as i128) * (num as i128);
    saturate(product / den)
}

impl Fixed {
    pub fn from_raw(raw: i64) -> (r: Fixed)
        ensures
            r == fixed(raw as int),
            r@ == raw,
    {
        Fixed { raw }
    }

    /// The whole number `n`.
    pub fn from_int(n: i32) -> (r: Fixed)
        ensures
            r@ == n * SCALE,
    {
        let wide: i64 = n as i64;
        assert(-0x8000_0000 * 1_000_000_000 <= wide * 1_000_000_000 <= 0x8000_0000 * 1_000_000_000)
            by (nonlinear_arith)
            requires
                -0x8000_0000 <= wide <= 0x8000_0000,
        ;
        Fixed { raw: wide * SCALE }
    }

    /// The fraction `num / den`, rounded toward zero.
    pub fn from_ratio(num: i64, den: i64) -> (r: Fixed)
        requires
            den > 0,
        ensures
            r == ratio(num as int, SCALE as int, den as int),
    {
        proof {
            assert(num * SCALE == SCALE * num) by (nonlinear_arith);
        }
        scale_ratio(num, SCALE, den as i128)
    }

    pub open spec fn spec_add(self, other: Fixed) -> Fixed {
        fixed(clamp(self@ + other@))
    }

    #[verifier::when_used_as_spec(spec_add)]
    pub fn add(self, other: Fixed) -> (r: Fixed)
        ensures
            r == self.spec_add(other),
    {
        saturate(self.raw as i128 + other.raw as i128)
    }

    pub open spec fn spec_sub(self, other: Fixed) -> Fixed {
        fixed(clamp(self@ - other@))
    }

    #[verifier::when_used_as_spec(spec_sub)]
    pub fn sub(self, other: Fixed) -> (r: Fixed)
        ensures
            r == self.spec_sub(other),
    {
        saturate(self.raw as i128 - other.raw as i128)
    }

    pub open spec fn spec_neg(self) -> Fixed {
        fixed(clamp(-self@))
    }

    #[verifier::when_used_as_spec(spec_neg)]
    pub fn neg(self) -> (r: Fixed)
        ensures
            r == self.spec_neg(),
    {
        saturate(0 - self.raw as i128)
    }

    pub open spec fn spec_abs(self) -> Fixed {
        fixed(clamp(magnitude(self@)))
    }

    #[verifier::when_used_as_spec(spec_abs)]
    pub fn abs(self) -> (r: Fixed)
        ensures
            r == self.spec_abs(),
    {
        if self.raw < 0 {
            self.neg()
        } else {
            self
        }
    }

    /// `1` for a number that is zero or more, `-1` for a negative one.
    pub open spec fn spec_signum(self) -> Fixed {
        if self@ >= 0 {
            fixed(SCALE as int)
        } else {
            fixed(-SCALE)
        }
    }

    /// `1` for a number that is zero or more, `-1` for a negative one.
    #[verifier::when_used_as_spec(spec_signum)]
    pub fn signum(self) -> (r: Fixed)
        ensures
            r == self.spec_signum(),
    {
        if self.raw >= 0 {
            Fixed { raw: SCALE }
        } else {
            Fixed { raw: -SCALE }
        }
    }

    /// The product, rounded toward zero and held in range.
    pub open spec fn spec_mul(self, other: Fixed) -> Fixed {
        ratio(self@, other@, SCALE as int)
    }

    /// The product, rounded toward zero.
    #[verifier::when_used_as_spec(spec_mul)]
    pub fn mul(self, other: Fixed) -> (r: Fixed)
        ensures
            r == self.spec_mul(other),
    {
        scale_ratio(self.raw, other.raw, SCALE as i128)
    }

    pub open spec fn spec_mul_int(self, k: i64) -> Fixed {
        fixed(clamp(self@ * k))
    }

    /// The product with a whole number.
    #[verifier::when_used_as_spec(spec_mul_int)]
    pub fn mul_int(self, k: i64) -> (r: Fixed)
        ensures
            r == self.spec_mul_int(k),
    {
        proof {
            lemma_product_bound(self@, k as int);
        }
        saturate((self.raw as i128) * (k as i128))
    }

    /// The quotient by a positive whole number, rounded toward zero.
    pub open spec fn spec_div_int(self, k: i64) -> Fixed
        recommends
            k > 0,
    {
        fixed(trunc_div(self@, k as int))
    }

    /// The quotient by a positive whole number, rounded toward zero.
    #[verifier::when_used_as_spec(spec_div_int)]
    pub fn div_int(self, k: i64) -> (r: Fixed)
        requires
            k > 0,
        ensures
            r == self.spec_div_int(k),
    {
        Fixed { raw: self.raw / k }
    }
}

} // verus!
