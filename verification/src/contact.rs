//! Narrow-phase contact geometry: penetration depth and contact normal for
//! circle-circle, circle-box and box-box pairs.
//!
//! Each function is pure. It returns `None` for shapes that do not touch, or a
//! contact whose normal points from the first shape toward the second.

use vstd::prelude::*;
use crate::direction::{
    direction, direction_x, direction_y, lemma_normalized, lemma_square_monotonic,
    lemma_square_order,
};
use crate::fixed::{
    clamp, fixed, floor_sqrt, isqrt, lemma_floor_sqrt_bounds, lemma_product_bound, magnitude,
    trunc_div, Fixed, SCALE,
};
use crate::vec2::{squared_length, vec2_of, Vec2};

verus! {

/// A detected overlap of two shapes.
#[derive(Debug, Clone, Copy, PartialEq, Eq, Structural)]
pub struct Contact {
    /// How far the shapes overlap along the normal.
    pub penetration: Fixed,
    /// The direction from the first shape toward the second.
    pub normal: Vec2,
}

/// The contact with raw penetration `penetration` and raw normal `(nx, ny)`.
pub open spec fn contact_of(penetration: int, nx: int, ny: int) -> Contact {
    Contact { penetration: fixed(penetration), normal: vec2_of(nx, ny) }
}

/// `1` for a raw count that is zero or more, `-1` for a negative one.
pub open spec fn sign(v: int) -> int {
    if v >= 0 {
        1
    } else {
        -1
    }
}

/// `v` turned against the side that `offset` lies on: `-v` for an offset that
/// is zero or more, `v` for a negative one.
pub open spec fn against(offset: int, v: int) -> int {
    if offset >= 0 {
        -v
    } else {
        v
    }
}

/// The contact of two circles.
///
/// With `d` the vector from the first centre to the second and `reach` the sum
/// of the radii, the circles touch when `|d|^2 < reach^2`. The penetration is
/// `reach - |d|` with `|d|` rounded down, and the normal is the direction of
/// `d`. Circles with the same centre have no direction between them: their
/// normal is the unit vector along x.
pub open spec fn ball_ball_contact(pos_a: Vec2, radius_a: Fixed, pos_b: Vec2, radius_b: Fixed)
    -> Option<Contact> {
    let dx = clamp(pos_b.x@ - pos_a.x@);
    let dy = clamp(pos_b.y@ - pos_a.y@);
    let reach = clamp(radius_a@ + radius_b@);
    let distance = floor_sqrt(squared_length(dx, dy)) as int;
    if squared_length(dx, dy) < reach * reach {
        Some(
            Contact {
                penetration: fixed(clamp(reach - distance)),
                normal: if dx == 0 && dy == 0 {
                    vec2_of(SCALE as int, 0)
                } else {
                    direction(dx, dy)
                },
            },
        )
    } else {
        None
    }
}

/// The contact of a circle with an axis-aligned box of full extent `size_b`.
///
/// `cx` and `cy` measure, on each axis, how far the circle's centre lies
/// beyond the box's face. The shapes are apart when either exceeds the radius.
/// When both are positive the circle is nearest a corner: they touch when the
/// corner is within the radius, the penetration is the radius less the
/// distance of the corner, rounded down, and the normal is the direction
/// from the centre to the corner. Otherwise the circle is nearest a face: the axis with the larger of
/// `cx` and `cy` separates, the y axis when they are equal.
pub open spec fn ball_box_contact(pos_a: Vec2, radius_a: Fixed, pos_b: Vec2, size_b: Vec2)
    -> Option<Contact> {
    let bx = clamp(pos_a.x@ - pos_b.x@);
    let by = clamp(pos_a.y@ - pos_b.y@);
    let cx = clamp(clamp(magnitude(bx)) - trunc_div(size_b.x@, 2));
    let cy = clamp(clamp(magnitude(by)) - trunc_div(size_b.y@, 2));
    let r = radius_a@;
    let distance = floor_sqrt(squared_length(cx, cy)) as int;
    if cx > r || cy > r {
        None
    } else if cx > 0 && cy > 0 {
        if squared_length(cx, cy) > r * r {
            None
        } else {
            Some(
                contact_of(
                    r - distance,
                    against(bx, direction_x(cx, cy)),
                    against(by, direction_y(cx, cy)),
                ),
            )
        }
    } else if cx > cy {
        Some(contact_of(clamp(r - cx), against(bx, SCALE as int), 0))
    } else {
        Some(contact_of(clamp(r - cy), 0, against(by, SCALE as int)))
    }
}

/// The overlap of two boxes on one axis: the sum of the half extents less the
/// distance of the centres.
pub open spec fn axis_overlap(pos_a: int, size_a: int, pos_b: int, size_b: int) -> int {
    clamp(
        clamp(trunc_div(size_a, 2) + trunc_div(size_b, 2)) - clamp(magnitude(clamp(pos_b - pos_a))),
    )
}

/// The contact of two axis-aligned boxes of full extents `size_a` and `size_b`.
///
/// The boxes are apart when the overlap on either axis is negative. Otherwise
/// the axis of the smaller overlap separates, the x axis when they are equal,
/// and the normal is the unit vector of that axis on the side of the second box.
pub open spec fn box_box_contact(pos_a: Vec2, size_a: Vec2, pos_b: Vec2, size_b: Vec2) -> Option<
    Contact,
> {
    let ox = axis_overlap(pos_a.x@, size_a.x@, pos_b.x@, size_b.x@);
    let oy = axis_overlap(pos_a.y@, size_a.y@, pos_b.y@, size_b.y@);
    if ox < 0 || oy < 0 {
        None
    } else if ox <= oy {
        Some(contact_of(ox, sign(clamp(pos_b.x@ - pos_a.x@)) * SCALE, 0))
    } else {
        Some(contact_of(oy, 0, sign(clamp(pos_b.y@ - pos_a.y@)) * SCALE))
    }
}

/// The square of a 64-bit number, as an unsigned 128-bit number.
fn square(v: i64) -> (r: u128)
    ensures
        r == v * v,
        r <= 0x4000_0000_0000_0000_0000_0000_0000_0000,
{
    proof {
        lemma_product_bound(v as int, v as int);
        assert(v * v >= 0) by (nonlinear_arith);
    }
    let wide: i128 = (v as i128) * (v as i128);
    wide as u128
}

/// Contact of the circle at `pos_a` with the circle at `pos_b`.
pub fn ball_ball(pos_a: Vec2, radius_a: Fixed, pos_b: Vec2, radius_b: Fixed) -> (contact: Option<
    Contact,
>)
    ensures
        contact == ball_ball_contact(pos_a, radius_a, pos_b, radius_b),
{
    let ab = pos_b.sub(pos_a);
    let combined_radius = radius_a.add(radius_b);
    let ab_sqr_len: u128 = ab.length_squared();
    if ab_sqr_len < square(combined_radius.raw) {
        let ab_length: u64 = isqrt(ab_sqr_len);
        proof {
            lemma_floor_sqrt_bounds(ab_sqr_len as nat);
            lemma_square_order(ab_length as int, combined_radius@);
        }
        let penetration = combined_radius.sub(Fixed::from_raw(ab_length as i64));
        let normal = if ab.x.raw == 0 && ab.y.raw == 0 {
            Vec2::new(Fixed::from_raw(SCALE), Fixed::from_raw(0))
        } else {
            ab.normalize_or_zero()
        };
        Some(Contact { penetration, normal })
    } else {
        None
    }
}

/// Contact of the circle at `pos_a` with the box of full extent `size_b`
/// centred at `pos_b`.
pub fn ball_box(pos_a: Vec2, radius_a: Fixed, pos_b: Vec2, size_b: Vec2) -> (contact: Option<
    Contact,
>)
    ensures
        contact == ball_box_contact(pos_a, radius_a, pos_b, size_b),
{
    let box_to_circle = pos_a.sub(pos_b);
    let box_to_circle_abs = box_to_circle.abs();
    let half_extents = size_b.div_int(2);
    let corner_to_center = box_to_circle_abs.sub(half_extents);
    let r = radius_a;
    if corner_to_center.x.raw > r.raw || corner_to_center.y.raw > r.raw {
        return None;
    }
    let s = Vec2::new(box_to_circle.x.signum(), box_to_circle.y.signum());
    if corner_to_center.x.raw > 0 && corner_to_center.y.raw > 0 {
        let corner_to_center_sqr: u128 = corner_to_center.length_squared();
        if corner_to_center_sqr > square(r.raw) {
            return None;
        }
        let corner_dist: u64 = isqrt(corner_to_center_sqr);
        proof {
            lemma_floor_sqrt_bounds(corner_to_center_sqr as nat);
            lemma_square_order(corner_dist as int, r@);
            lemma_normalized(corner_to_center.x@, corner_to_center.y@);
        }
        let penetration = r.sub(Fixed::from_raw(corner_dist as i64));
        let toward = corner_to_center.normalize_or_zero();
        let normal = Vec2::new(
            if s.x.raw > 0 {
                toward.x.neg()
            } else {
                toward.x
            },
            if s.y.raw > 0 {
                toward.y.neg()
            } else {
                toward.y
            },
        );
        Some(Contact { penetration, normal })
    } else if corner_to_center.x.raw > corner_to_center.y.raw {
        Some(
            Contact {
                penetration: r.sub(corner_to_center.x),
                normal: Vec2::new(s.x.neg(), Fixed::from_raw(0)),
            },
        )
    } else {
        Some(
            Contact {
                penetration: r.sub(corner_to_center.y),
                normal: Vec2::new(Fixed::from_raw(0), s.y.neg()),
            },
        )
    }
}

/// Contact of the box of full extent `size_a` centred at `pos_a` with the box
/// of full extent `size_b` centred at `pos_b`.
pub fn box_box(pos_a: Vec2, size_a: Vec2, pos_b: Vec2, size_b: Vec2) -> (contact: Option<Contact>)
    ensures
        contact == box_box_contact(pos_a, size_a, pos_b, size_b),
{
    let half_a = size_a.div_int(2);
    let half_b = size_b.div_int(2);
    let ab = pos_b.sub(pos_a);
    let overlap = half_a.add(half_b).sub(ab.abs());
    if overlap.x.raw < 0 || overlap.y.raw < 0 {
        None
    } else if overlap.x.raw <= overlap.y.raw {
        Some(
            Contact {
                penetration: overlap.x,
                normal: Vec2::new(ab.x.signum(), Fixed::from_raw(0)),
            },
        )
    } else {
        Some(
            Contact {
                penetration: overlap.y,
                normal: Vec2::new(Fixed::from_raw(0), ab.y.signum()),
            },
        )
    }
}

/// The geometry of circle contacts, for circles whose radii sum to zero or
/// more and whose coordinates are far from the ends of the number range.
///
/// With `d` the vector between the centres and `reach` the sum of the radii:
/// circles with `|d| >= reach` have no contact. Circles with `|d| < reach`
/// have one whose penetration is `reach` less `|d|` rounded down, hence
/// positive; whose normal has length one up to rounding, however near the
/// centres are; and whose normal points along `d`.
pub proof fn lemma_ball_ball_geometry(pos_a: Vec2, radius_a: Fixed, pos_b: Vec2, radius_b: Fixed)
    requires
        0 <= radius_a@ + radius_b@ <= i64::MAX,
        i64::MIN <= pos_b.x@ - pos_a.x@ <= i64::MAX,
        i64::MIN <= pos_b.y@ - pos_a.y@ <= i64::MAX,
    ensures
        ({
            let dx = pos_b.x@ - pos_a.x@;
            let dy = pos_b.y@ - pos_a.y@;
            let reach = radius_a@ + radius_b@;
            let distance = floor_sqrt(squared_length(dx, dy)) as int;
            let contact = ball_ball_contact(pos_a, radius_a, pos_b, radius_b);
            &&& squared_length(dx, dy) >= reach * reach <==> contact is None
            &&& contact matches Some(c) ==> {
                let nx = c.normal.x@;
                let ny = c.normal.y@;
                &&& c.penetration@ == reach - distance
                &&& 0 < c.penetration@ <= reach
                &&& SCALE * SCALE - 4 * SCALE - 2 < nx * nx + ny * ny <= SCALE * SCALE
                &&& -SCALE <= nx <= SCALE
                &&& -SCALE <= ny <= SCALE
                &&& dx >= 0 ==> nx >= 0
                &&& dx < 0 ==> nx <= 0
                &&& dy >= 0 ==> ny >= 0
                &&& dy <= 0 ==> ny <= 0
            }
        }),
{
    let dx = pos_b.x@ - pos_a.x@;
    let dy = pos_b.y@ - pos_a.y@;
    let reach = radius_a@ + radius_b@;
    let n = squared_length(dx, dy);
    let distance = floor_sqrt(n) as int;
    lemma_floor_sqrt_bounds(n);
    if n < reach * reach {
        lemma_square_order(distance, reach);
        lemma_square_monotonic(distance, distance);
        if dx == 0 && dy == 0 {
            assert(SCALE * SCALE + 0 * 0 == SCALE * SCALE) by (nonlinear_arith);
        } else {
            lemma_normalized(dx, dy);
        }
    }
}

/// Boxes apart on an axis have no contact, and only those: for boxes whose
/// coordinates are far from the ends of the number range, `box_box` finds no
/// contact exactly when, on the x or on the y axis, the distance of the
/// centres exceeds the sum of the half extents.
pub proof fn lemma_box_box_separation(pos_a: Vec2, size_a: Vec2, pos_b: Vec2, size_b: Vec2)
    requires
        i64::MIN < pos_b.x@ - pos_a.x@ <= i64::MAX,
        i64::MIN < pos_b.y@ - pos_a.y@ <= i64::MAX,
    ensures
        ({
            let gap_x = magnitude(pos_b.x@ - pos_a.x@) - (trunc_div(size_a.x@, 2) + trunc_div(
                size_b.x@,
                2,
            ));
            let gap_y = magnitude(pos_b.y@ - pos_a.y@) - (trunc_div(size_a.y@, 2) + trunc_div(
                size_b.y@,
                2,
            ));
            box_box_contact(pos_a, size_a, pos_b, size_b) is None <==> gap_x > 0 || gap_y > 0
        }),
{
}

/// The geometry of box contacts. A contact of two boxes has the smaller of
/// the two overlaps as its penetration, which is zero or more, and a normal
/// of length exactly one along the x or the y axis.
pub proof fn lemma_box_box_geometry(pos_a: Vec2, size_a: Vec2, pos_b: Vec2, size_b: Vec2)
    ensures
        box_box_contact(pos_a, size_a, pos_b, size_b) matches Some(c) ==> {
            let ox = axis_overlap(pos_a.x@, size_a.x@, pos_b.x@, size_b.x@);
            let oy = axis_overlap(pos_a.y@, size_a.y@, pos_b.y@, size_b.y@);
            &&& c.penetration@ >= 0
            &&& c.penetration@ <= ox
            &&& c.penetration@ <= oy
            &&& c.penetration@ == ox || c.penetration@ == oy
            &&& c.normal.x@ * c.normal.x@ + c.normal.y@ * c.normal.y@ == SCALE * SCALE
            &&& c.normal.x@ == 0 || c.normal.y@ == 0
            &&& pos_b.x@ > pos_a.x@ ==> c.normal.x@ >= 0
            &&& pos_b.x@ < pos_a.x@ ==> c.normal.x@ <= 0
            &&& pos_b.y@ > pos_a.y@ ==> c.normal.y@ >= 0
            &&& pos_b.y@ < pos_a.y@ ==> c.normal.y@ <= 0
        },
{
    assert(SCALE * SCALE + 0 * 0 == SCALE * SCALE && (-SCALE) * (-SCALE) == SCALE * SCALE && 0 * 0
        + SCALE * SCALE == SCALE * SCALE) by (nonlinear_arith);
}

/// The geometry of contacts of a circle with a box. A contact has a
/// penetration of zero or more and a normal of length one: exactly one along
/// an axis when the circle is nearest a face, one up to rounding when it is
/// nearest a corner, however near the corner the centre is. The normal
/// points from the circle toward the box.
pub proof fn lemma_ball_box_geometry(pos_a: Vec2, radius_a: Fixed, pos_b: Vec2, size_b: Vec2)
    ensures
        ball_box_contact(pos_a, radius_a, pos_b, size_b) matches Some(c) ==> {
            let nx = c.normal.x@;
            let ny = c.normal.y@;
            &&& c.penetration@ >= 0
            &&& SCALE * SCALE - 4 * SCALE - 2 < nx * nx + ny * ny <= SCALE * SCALE
            &&& -SCALE <= nx <= SCALE
            &&& -SCALE <= ny <= SCALE
            &&& pos_a.x@ >= pos_b.x@ ==> nx <= 0
            &&& pos_a.x@ < pos_b.x@ ==> nx >= 0
            &&& pos_a.y@ >= pos_b.y@ ==> ny <= 0
            &&& pos_a.y@ < pos_b.y@ ==> ny >= 0
        },
{
    let bx = clamp(pos_a.x@ - pos_b.x@);
    let by = clamp(pos_a.y@ - pos_b.y@);
    let cx = clamp(clamp(magnitude(bx)) - trunc_div(size_b.x@, 2));
    let cy = clamp(clamp(magnitude(by)) - trunc_div(size_b.y@, 2));
    let r = radius_a@;
    assert(SCALE * SCALE + 0 * 0 == SCALE * SCALE && (-SCALE) * (-SCALE) == SCALE * SCALE && 0 * 0
        + SCALE * SCALE == SCALE * SCALE) by (nonlinear_arith);
    if cx <= r && cy <= r && cx > 0 && cy > 0 && squared_length(cx, cy) <= r * r {
        let distance = floor_sqrt(squared_length(cx, cy)) as int;
        lemma_floor_sqrt_bounds(squared_length(cx, cy));
        lemma_square_order(distance, r);
        lemma_normalized(cx, cy);
        let qx = direction_x(cx, cy);
        let qy = direction_y(cx, cy);
        assert((-qx) * (-qx) == qx * qx && (-qy) * (-qy) == qy * qy) by (nonlinear_arith);
    }
}

/// The normal has length one: its squared length lies within
/// `4 SCALE + 2` below `SCALE^2` and does not exceed it.
pub open spec fn unit_length(normal: Vec2) -> bool {
    &&& SCALE * SCALE - 4 * SCALE - 2 < normal.x@ * normal.x@ + normal.y@ * normal.y@ <= SCALE
        * SCALE
    &&& -SCALE <= normal.x@ <= SCALE
    &&& -SCALE <= normal.y@ <= SCALE
}

/// Every contact normal has length one, whatever the shapes and wherever
/// they are.
pub proof fn lemma_normals_have_unit_length(
    pos_a: Vec2,
    radius_a: Fixed,
    size_a: Vec2,
    pos_b: Vec2,
    radius_b: Fixed,
    size_b: Vec2,
)
    ensures
        ball_ball_contact(pos_a, radius_a, pos_b, radius_b) matches Some(c) ==> unit_length(
            c.normal,
        ),
        ball_box_contact(pos_a, radius_a, pos_b, size_b) matches Some(c) ==> unit_length(c.normal),
        box_box_contact(pos_a, size_a, pos_b, size_b) matches Some(c) ==> unit_length(c.normal),
{
    lemma_ball_box_geometry(pos_a, radius_a, pos_b, size_b);
    lemma_box_box_geometry(pos_a, size_a, pos_b, size_b);
    let dx = clamp(pos_b.x@ - pos_a.x@);
    let dy = clamp(pos_b.y@ - pos_a.y@);
    if dx == 0 && dy == 0 {
        assert(SCALE * SCALE + 0 * 0 == SCALE * SCALE) by (nonlinear_arith);
    } else {
        lemma_normalized(dx, dy);
    }
    assert(SCALE * SCALE >= 4 * SCALE + 2) by (nonlinear_arith)
        requires
            SCALE == 1_000_000_000,
    ;
}

} // verus!
