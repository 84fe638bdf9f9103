//! The direction of a vector: the vector of length one that points the same
//! way.
//!
//! A short vector has a length of few raw counts, and a length rounded down
//! to a whole raw count is then far off. So a vector is magnified before its
//! length is taken: its larger component is brought above `2^61`, where one
//! raw count is less than one part in `SCALE^2`.

use vstd::prelude::*;
use crate::fixed::{
    floor_sqrt, isqrt, lemma_floor_sqrt_bounds, lemma_product_bound, magnitude, saturate,
    trunc_div, SCALE,
};
use crate::vec2::{squared_length, vec2_of, Vec2};

verus! {

/// A component of a vector, divided by a length that is not shorter than the
/// component, is at most one.
pub proof fn lemma_unit_component(a: int, d: int)
    requires
        d > 0,
        -d <= a <= d,
    ensures
        -SCALE <= trunc_div(a * SCALE, d) <= SCALE,
        a >= 0 ==> trunc_div(a * SCALE, d) >= 0,
        a <= 0 ==> trunc_div(a * SCALE, d) <= 0,
{
    let m = magnitude(a);
    assert(0 <= (m * SCALE) / d <= SCALE) by (nonlinear_arith)
        requires
            0 <= m <= d,
            d > 0,
            SCALE == 1_000_000_000,
    ;
    if a >= 0 {
        assert(a * SCALE >= 0) by (nonlinear_arith)
            requires
                a >= 0,
                SCALE == 1_000_000_000,
        ;
    } else {
        assert(a * SCALE < 0 && -(a * SCALE) == m * SCALE) by (nonlinear_arith)
            requires
                a < 0,
                m == -a,
                SCALE == 1_000_000_000,
        ;
    }
}

/// A number whose square is below the square of `b` is below `b` in magnitude;
/// one whose square is at most that of `b` is at most `b` in magnitude.
pub proof fn lemma_square_order(a: int, b: int)
    requires
        a >= 0,
    ensures
        a * a < b * b ==> a < magnitude(b),
        a * a <= b * b ==> a <= magnitude(b),
{
    let m = magnitude(b);
    assert(m * m == b * b) by (nonlinear_arith)
        requires
            m == b || m == -b,
    ;
    if a > m {
        assert(a * a > m * m) by (nonlinear_arith)
            requires
                a > m,
                m >= 0,
        ;
    }
    if a == m {
        assert(a * a == m * m);
    }
}

/// The length of a vector is not shorter than either component.
pub proof fn lemma_length_covers_components(x: int, y: int)
    ensures
        magnitude(x) <= floor_sqrt(squared_length(x, y)),
        magnitude(y) <= floor_sqrt(squared_length(x, y)),
{
    let n = squared_length(x, y);
    let d = floor_sqrt(n) as int;
    lemma_floor_sqrt_bounds(n);
    assert(x * x >= 0 && y * y >= 0) by (nonlinear_arith);
    let mx = magnitude(x);
    let my = magnitude(y);
    assert(mx * mx == x * x) by (nonlinear_arith)
        requires
            mx == x || mx == -x,
    ;
    assert(my * my == y * y) by (nonlinear_arith)
        requires
            my == y || my == -y,
    ;
    assert(mx * mx < (d + 1) * (d + 1));
    assert(my * my < (d + 1) * (d + 1));
    if mx > d {
        assert(mx * mx >= (d + 1) * (d + 1)) by (nonlinear_arith)
            requires
                mx >= d + 1,
                d >= 0,
        ;
    }
    if my > d {
        assert(my * my >= (d + 1) * (d + 1)) by (nonlinear_arith)
            requires
                my >= d + 1,
                d >= 0,
        ;
    }
}

/// The quotient `a * SCALE / d` of a component by a length brackets the
/// component: in magnitude, `q * d <= |a| * SCALE < (q + 1) * d`.
pub proof fn lemma_quotient_brackets(a: int, d: int)
    requires
        d > 0,
    ensures
        magnitude(trunc_div(a * SCALE, d)) * d <= magnitude(a) * SCALE,
        magnitude(a) * SCALE < (magnitude(trunc_div(a * SCALE, d)) + 1) * d,
        magnitude(trunc_div(a * SCALE, d)) == (magnitude(a) * SCALE) / d,
{
    let m = magnitude(a);
    let big = m * SCALE;
    assert(big >= 0) by (nonlinear_arith)
        requires
            big == m * SCALE,
            m >= 0,
            SCALE == 1_000_000_000,
    ;
    let q = big / d;
    vstd::arithmetic::div_mod::lemma_fundamental_div_mod(big, d);
    vstd::arithmetic::div_mod::lemma_mod_pos_bound(big, d);
    assert(q >= 0) by (nonlinear_arith)
        requires
            big == d * q + big % d,
            0 <= big % d < d,
            big >= 0,
            d > 0,
    ;
    assert((q + 1) * d == d * q + d) by (nonlinear_arith);
    assert(q * d == d * q) by (nonlinear_arith);
    if a >= 0 {
        assert(a * SCALE == big);
    } else {
        assert(a * SCALE == -big) by (nonlinear_arith)
            requires
                big == m * SCALE,
                m == -a,
        ;
        if big == 0 {
            assert(q == 0);
        }
    }
}

/// Squaring keeps the order of numbers that are zero or more.
pub proof fn lemma_square_monotonic(a: int, b: int)
    requires
        0 <= a <= b,
    ensures
        a * a <= b * b,
        a < b ==> a * a < b * b,
{
    assert(a * a <= b * b) by (nonlinear_arith)
        requires
            0 <= a <= b,
    ;
    if a < b {
        assert(a * a < b * b) by (nonlinear_arith)
            requires
                0 <= a < b,
        ;
    }
}

/// A vector divided by its length rounded down: with `len` that length and
/// `n` the quotient, `SCALE^2 - 4 SCALE - 2 < |n|^2` and
/// `|n|^2 len^2 < SCALE^2 (len + 1)^2`. Each component of `n` has the sign of
/// the vector's component, or is zero.
pub proof fn lemma_quotient_by_length(x: int, y: int)
    requires
        x != 0 || y != 0,
    ensures
        ({
            let len = floor_sqrt(squared_length(x, y)) as int;
            let nx = trunc_div(x * SCALE, len);
            let ny = trunc_div(y * SCALE, len);
            &&& len > 0
            &&& SCALE * SCALE - 4 * SCALE - 2 < nx * nx + ny * ny
            &&& (nx * nx + ny * ny) * (len * len) < (SCALE * SCALE) * ((len + 1) * (len + 1))
            &&& -SCALE <= nx <= SCALE
            &&& -SCALE <= ny <= SCALE
            &&& x >= 0 ==> nx >= 0
            &&& x <= 0 ==> nx <= 0
            &&& y >= 0 ==> ny >= 0
            &&& y <= 0 ==> ny <= 0
        }),
{
    let n = squared_length(x, y);
    let len = floor_sqrt(n) as int;
    let nx = trunc_div(x * SCALE, len);
    let ny = trunc_div(y * SCALE, len);
    let s = SCALE as int;
    lemma_floor_sqrt_bounds(n);
    assert(x * x >= 0 && y * y >= 0) by (nonlinear_arith);
    assert(x * x + y * y >= 1) by (nonlinear_arith)
        requires
            x != 0 || y != 0,
    ;
    if len == 0 {
        assert((len + 1) * (len + 1) == 1) by (nonlinear_arith)
            requires
                len == 0,
        ;
    }
    assert(len > 0);
    lemma_length_covers_components(x, y);
    lemma_unit_component(x, len);
    lemma_unit_component(y, len);
    lemma_quotient_brackets(x, len);
    lemma_quotient_brackets(y, len);
    let mx = magnitude(x);
    let my = magnitude(y);
    let p = magnitude(nx);
    let q = magnitude(ny);
    assert(p * p == nx * nx) by (nonlinear_arith)
        requires
            p == nx || p == -nx,
    ;
    assert(q * q == ny * ny) by (nonlinear_arith)
        requires
            q == ny || q == -ny,
    ;
    assert(mx * mx == x * x) by (nonlinear_arith)
        requires
            mx == x || mx == -x,
    ;
    assert(my * my == y * y) by (nonlinear_arith)
        requires
            my == y || my == -y,
    ;
    // The scaled components and their squares.
    let bx = mx * s;
    let by = my * s;
    assert(bx * bx + by * by == (s * s) * (x * x + y * y)) by (nonlinear_arith)
        requires
            bx == mx * s,
            by == my * s,
            mx * mx == x * x,
            my * my == y * y,
    ;
    // Upper bound: (p len)^2 + (q len)^2 <= bx^2 + by^2 < s^2 (len + 1)^2.
    assert(p * len >= 0 && q * len >= 0) by (nonlinear_arith)
        requires
            p >= 0,
            q >= 0,
            len > 0,
    ;
    lemma_square_monotonic(p * len, bx);
    lemma_square_monotonic(q * len, by);
    assert((p * len) * (p * len) + (q * len) * (q * len) == (p * p + q * q) * (len * len))
        by (nonlinear_arith);
    assert((s * s) * (x * x + y * y) < (s * s) * ((len + 1) * (len + 1))) by (nonlinear_arith)
        requires
            x * x + y * y < (len + 1) * (len + 1),
            s > 0,
    ;
    // Lower bound: ((p + 1) len)^2 + ((q + 1) len)^2 > bx^2 + by^2 >= s^2 len^2.
    assert(bx >= 0 && by >= 0) by (nonlinear_arith)
        requires
            bx == mx * s,
            by == my * s,
            mx >= 0,
            my >= 0,
            s > 0,
    ;
    lemma_square_monotonic(bx, (p + 1) * len);
    lemma_square_monotonic(by, (q + 1) * len);
    assert(((p + 1) * len) * ((p + 1) * len) + ((q + 1) * len) * ((q + 1) * len) == ((p + 1) * (p
        + 1) + (q + 1) * (q + 1)) * (len * len)) by (nonlinear_arith);
    assert((s * s) * (x * x + y * y) >= (s * s) * (len * len)) by (nonlinear_arith)
        requires
            x * x + y * y >= len * len,
            s > 0,
    ;
    let w = (p + 1) * (p + 1) + (q + 1) * (q + 1);
    assert(w * (len * len) > (s * s) * (len * len));
    assert(w > s * s) by (nonlinear_arith)
        requires
            w * (len * len) > (s * s) * (len * len),
            len > 0,
    ;
    assert(w == p * p + q * q + 2 * p + 2 * q + 2) by (nonlinear_arith)
        requires
            w == (p + 1) * (p + 1) + (q + 1) * (q + 1),
    ;
}

/// The factor by which a vector is magnified before its length is taken,
/// for a vector whose larger component is `largest` in magnitude: `2^62`
/// over that component, rounded down, and one where that is less.
pub open spec fn magnification(largest: int) -> int {
    if 0 < largest <= 0x4000_0000_0000_0000 {
        0x4000_0000_0000_0000int / largest
    } else {
        1
    }
}

/// The larger of the two magnitudes.
pub open spec fn largest_component(x: int, y: int) -> int {
    if magnitude(x) >= magnitude(y) {
        magnitude(x)
    } else {
        magnitude(y)
    }
}

/// The direction of the vector with raw components `x` and `y`: the
/// magnified vector times `SCALE` over the length of the magnified vector,
/// each component rounded toward zero. The zero vector has no direction: it
/// is given the zero vector.
pub open spec fn direction(x: int, y: int) -> Vec2 {
    let factor = magnification(largest_component(x, y));
    let length = floor_sqrt(squared_length(x * factor, y * factor)) as int;
    if x == 0 && y == 0 {
        vec2_of(0, 0)
    } else {
        vec2_of(
            trunc_div((x * factor) * SCALE, length),
            trunc_div((y * factor) * SCALE, length),
        )
    }
}

/// The components of a direction as whole numbers.
pub open spec fn direction_x(x: int, y: int) -> int {
    let factor = magnification(largest_component(x, y));
    let length = floor_sqrt(squared_length(x * factor, y * factor)) as int;
    trunc_div((x * factor) * SCALE, length)
}

pub open spec fn direction_y(x: int, y: int) -> int {
    let factor = magnification(largest_component(x, y));
    let length = floor_sqrt(squared_length(x * factor, y * factor)) as int;
    trunc_div((y * factor) * SCALE, length)
}

/// The magnified larger component lies above `2^61`, and at most at `2^62`
/// unless the component itself is larger.
pub proof fn lemma_magnified(largest: int)
    requires
        largest >= 1,
    ensures
        magnification(largest) >= 1,
        0x2000_0000_0000_0000 < largest * magnification(largest),
        largest <= 0x4000_0000_0000_0000 ==> largest * magnification(largest)
            <= 0x4000_0000_0000_0000,
        largest > 0x4000_0000_0000_0000 ==> magnification(largest) == 1,
{
    let top = 0x4000_0000_0000_0000int;
    if largest <= top {
        let f = top / largest;
        vstd::arithmetic::div_mod::lemma_fundamental_div_mod(top, largest);
        vstd::arithmetic::div_mod::lemma_mod_pos_bound(top, largest);
        assert(largest * f == top - top % largest);
        assert(f >= 1) by (nonlinear_arith)
            requires
                largest * f == top - top % largest,
                0 <= top % largest < largest,
                largest <= top,
                largest >= 1,
        ;
        if largest > 0x2000_0000_0000_0000 {
            assert(largest * f >= largest) by (nonlinear_arith)
                requires
                    f >= 1,
                    largest >= 1,
            ;
        }
    } else {
        assert(largest * 1 == largest);
    }
}

/// What holds of a magnified vector: its components keep their signs and
/// stay within 64 bits, and its length, rounded down, lies above `2^61` and
/// is not shorter than either component.
pub proof fn lemma_magnified_vector(x: int, y: int)
    requires
        x != 0 || y != 0,
        i64::MIN <= x <= i64::MAX,
        i64::MIN <= y <= i64::MAX,
    ensures
        ({
            let factor = magnification(largest_component(x, y));
            let length = floor_sqrt(squared_length(x * factor, y * factor)) as int;
            &&& 1 <= factor <= 0x4000_0000_0000_0000
            &&& i64::MIN <= x * factor <= i64::MAX
            &&& i64::MIN <= y * factor <= i64::MAX
            &&& x >= 0 ==> x * factor >= 0
            &&& x <= 0 ==> x * factor <= 0
            &&& y >= 0 ==> y * factor >= 0
            &&& y <= 0 ==> y * factor <= 0
            &&& x * factor != 0 || y * factor != 0
            &&& magnitude(x * factor) <= length
            &&& magnitude(y * factor) <= length
            &&& 0x2000_0000_0000_0000 < length
        }),
{
    let m = largest_component(x, y);
    let f = magnification(m);
    lemma_magnified(m);
    let big_x = x * f;
    let big_y = y * f;
    let mx = magnitude(x);
    let my = magnitude(y);
    assert(magnitude(big_x) == mx * f && (x >= 0 ==> big_x >= 0) && (x <= 0 ==> big_x <= 0))
        by (nonlinear_arith)
        requires
            big_x == x * f,
            f >= 1,
            mx == magnitude(x),
    ;
    assert(magnitude(big_y) == my * f && (y >= 0 ==> big_y >= 0) && (y <= 0 ==> big_y <= 0))
        by (nonlinear_arith)
        requires
            big_y == y * f,
            f >= 1,
            my == magnitude(y),
    ;
    assert(mx * f <= m * f && my * f <= m * f) by (nonlinear_arith)
        requires
            0 <= mx <= m,
            0 <= my <= m,
            f >= 1,
    ;
    assert(mx * f >= mx && my * f >= my) by (nonlinear_arith)
        requires
            mx >= 0,
            my >= 0,
            f >= 1,
    ;
    assert(m * f == mx * f || m * f == my * f);
    if m > 0x4000_0000_0000_0000 {
        assert(big_x == x && big_y == y) by (nonlinear_arith)
            requires
                big_x == x * f,
                big_y == y * f,
                f == 1,
        ;
    }
    assert(f <= 0x4000_0000_0000_0000) by {
        if m <= 0x4000_0000_0000_0000 {
            assert(f <= m * f) by (nonlinear_arith)
                requires
                    m >= 1,
                    f >= 1,
            ;
        }
    }
    lemma_length_covers_components(big_x, big_y);
}

/// Directions have length one. For every vector but the zero vector, the
/// squared length of its direction lies within `4 SCALE + 2` below `SCALE^2`
/// and does not exceed it, however short or long the vector is; and each
/// component of the direction has the sign of the vector's component, or is
/// zero.
pub proof fn lemma_normalized(x: int, y: int)
    requires
        x != 0 || y != 0,
        i64::MIN <= x <= i64::MAX,
        i64::MIN <= y <= i64::MAX,
    ensures
        ({
            let nx = direction(x, y).x@;
            let ny = direction(x, y).y@;
            &&& nx == direction_x(x, y)
            &&& ny == direction_y(x, y)
            &&& SCALE * SCALE - 4 * SCALE - 2 < nx * nx + ny * ny <= SCALE * SCALE
            &&& -SCALE <= nx <= SCALE
            &&& -SCALE <= ny <= SCALE
            &&& x >= 0 ==> nx >= 0
            &&& x <= 0 ==> nx <= 0
            &&& y >= 0 ==> ny >= 0
            &&& y <= 0 ==> ny <= 0
        }),
{
    let f = magnification(largest_component(x, y));
    let big_x = x * f;
    let big_y = y * f;
    lemma_magnified_vector(x, y);
    lemma_quotient_by_length(big_x, big_y);
    let len = floor_sqrt(squared_length(big_x, big_y)) as int;
    let nx = trunc_div(big_x * SCALE, len);
    let ny = trunc_div(big_y * SCALE, len);
    let sq = nx * nx + ny * ny;
    let unit = SCALE * SCALE;
    assert(unit == 1_000_000_000_000_000_000) by (nonlinear_arith)
        requires
            unit == SCALE * SCALE,
            SCALE == 1_000_000_000,
    ;
    assert(sq >= 0) by (nonlinear_arith)
        requires
            sq == nx * nx + ny * ny,
    ;
    if sq > unit {
        assert(false) by (nonlinear_arith)
            requires
                sq * (len * len) < unit * ((len + 1) * (len + 1)),
                sq >= unit + 1,
                unit == 1_000_000_000_000_000_000,
                len > 0x2000_0000_0000_0000,
        ;
    }
}

impl Vec2 {
    /// The direction of the vector; the zero vector for the zero vector.
    pub fn normalize_or_zero(self) -> (unit: Vec2)
        ensures
            unit == direction(self.x@, self.y@),
    {
        let x: i128 = self.x.raw as i128;
        let y: i128 = self.y.raw as i128;
        let size_x: i128 = if x < 0 {
            -x
        } else {
            x
        };
        let size_y: i128 = if y < 0 {
            -y
        } else {
            y
        };
        let largest: i128 = if size_x >= size_y {
            size_x
        } else {
            size_y
        };
        if largest == 0 {
            return Vec2::zero();
        }
        let factor: i128 = if largest <= 0x4000_0000_0000_0000 {
            0x4000_0000_0000_0000 / largest
        } else {
            1
        };
        proof {
            lemma_magnified_vector(self.x@, self.y@);
            assert(factor == magnification(largest_component(self.x@, self.y@)));
            lemma_product_bound(self.x@ * factor, self.x@ * factor);
            lemma_product_bound(self.y@ * factor, self.y@ * factor);
            assert((self.x@ * factor) * (self.x@ * factor) >= 0) by (nonlinear_arith);
            assert((self.y@ * factor) * (self.y@ * factor) >= 0) by (nonlinear_arith);
        }
        let big_x: i128 = x * factor;
        let big_y: i128 = y * factor;
        let square_x: i128 = big_x * big_x;
        let square_y: i128 = big_y * big_y;
        let length: u64 = isqrt((square_x as u128) + (square_y as u128));
        proof {
            lemma_unit_component(big_x as int, length as int);
            lemma_unit_component(big_y as int, length as int);
            assert(-0x8000_0000_0000_0000 * 1_000_000_000 <= big_x * 1_000_000_000
                <= 0x8000_0000_0000_0000 * 1_000_000_000) by (nonlinear_arith)
                requires
                    -0x8000_0000_0000_0000 <= big_x <= 0x8000_0000_0000_0000,
            ;
            assert(-0x8000_0000_0000_0000 * 1_000_000_000 <= big_y * 1_000_000_000
                <= 0x8000_0000_0000_0000 * 1_000_000_000) by (nonlinear_arith)
                requires
                    -0x8000_0000_0000_0000 <= big_y <= 0x8000_0000_0000_0000,
            ;
        }
        Vec2::new(
            saturate((big_x * (SCALE as i128)) / (length as i128)),
            saturate((big_y * (SCALE as i128)) / (length as i128)),
        )
    }
}

} // verus!
