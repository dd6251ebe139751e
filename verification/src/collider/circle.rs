use vstd::prelude::*;

use crate::geometry::aabb::Aabb;
use crate::geometry::point::GeometryPoint;
use crate::ops::div_round_shift_spec;
use crate::quantity::cordic::{lemma_sin_cos_spec_bound, sin_cos_spec};
use crate::quantity::length::Length;
use crate::quantity::position::{MAX_POSITION, Position, lemma_rotation_within_radius, rotated_x, rotated_y};
use crate::transform::{Transform, transform_point};
use super::inertia::from_q24_per_q32_ratio;

verus! {

/// `π` in unsigned Q32, rounded to nearest.
pub const PI_Q32: u128 = 13_493_037_705;

/// A circle with this center and radius fits the collider radius limit.
pub open spec fn circle_fits(center: (i32, i32), radius: int) -> bool {
    &&& 0 < radius <= MAX_POSITION
    &&& center.0 as int * center.0 as int + center.1 as int * center.1 as int
        <= (MAX_POSITION - radius) * (MAX_POSITION - radius)
}

/// Bounding box `(min_x, max_x, min_y, max_y)` of the circle `(center, radius)`
/// placed by `transform`.
pub open spec fn circle_bounds(c: ((i32, i32), u32), transform: Transform) -> (i32, i32, i32, i32) {
    let center = transform_point(transform, (c.0.0 as int, c.0.1 as int));
    let r = c.1 as int;
    ((center.0 - r) as i32, (center.0 + r) as i32, (center.1 - r) as i32, (center.1 + r) as i32)
}

/// `(mass_weight, mass_weight * I/m)` of the circle `(center, radius)`: the
/// weight is six times its doubled area (`2π r²` rounded from Q32), saturated.
pub open spec fn circle_mass_properties(c: ((i32, i32), u32)) -> (int, int) {
    let radius_squared = c.1 * c.1;
    let twice_area = (2 * PI_Q32 * radius_squared + 0x8000_0000) / 0x1_0000_0000;
    (
        if twice_area * 6 > u64::MAX { u64::MAX as int } else { twice_area * 6 },
        3 * twice_area * (radius_squared + 2 * (c.0.0 * c.0.0 + c.0.1 * c.0.1)),
    )
}

/// Circle with a body-local center.
///
/// The radius is non-zero and the whole local circle lies within
/// `2^29 - 1` raw units of the body origin, so two radii, their squares and
/// all circle narrow-phase intermediates fit in 64 bits.
#[derive(Debug, Clone, Copy, PartialEq, Eq, Hash, Structural)]
pub struct Circle {
    pub(crate) center: Position,
    pub(crate) radius: Length,
}

impl View for Circle {
    /// `(center, radius)`.
    type V = ((i32, i32), u32);

    closed spec fn view(&self) -> ((i32, i32), u32) {
        (self.center@, self.radius@)
    }
}

impl Circle {
    #[verifier::type_invariant]
    closed spec fn fits(self) -> bool {
        circle_fits(self.center@, self.radius@ as int)
    }

    /// A circle centered on the body origin; `None` for a zero radius or one
    /// above the collider radius limit.
    #[inline]
    pub fn new(radius: Length) -> (c: Option<Self>)
        ensures
            c is Some <==> circle_fits((0i32, 0i32), radius@ as int),
            c matches Some(c) ==> c@ == ((0i32, 0i32), radius@),
    {
        Self::with_center(Position::zero(), radius)
    }

    /// A circle whose center is offset from the body origin; `None` unless
    /// the radius is non-zero and center distance plus radius fits the limit.
    #[inline]
    pub fn with_center(center: Position, radius: Length) -> (c: Option<Self>)
        ensures
            c is Some <==> circle_fits(center@, radius@ as int),
            c matches Some(c) ==> c@ == (center@, radius@),
    {
        let r = radius.raw();
        if r == 0 || r > MAX_POSITION as u32 {
            return None;
        }
        let remaining = MAX_POSITION as u64 - r as u64;
        let raw = center.raw();
        let x = if raw[0] < 0 { (-raw[0]) as u64 } else { raw[0] as u64 };
        let y = if raw[1] < 0 { (-raw[1]) as u64 } else { raw[1] as u64 };
        proof {
            assert(x * x <= 0x1fff_ffff * 0x1fff_ffff) by (nonlinear_arith)
                requires x <= 0x1fff_ffff;
            assert(y * y <= 0x1fff_ffff * 0x1fff_ffff) by (nonlinear_arith)
                requires y <= 0x1fff_ffff;
            assert(remaining * remaining <= 0x1fff_ffff * 0x1fff_ffff) by (nonlinear_arith)
                requires remaining <= 0x1fff_ffff;
            assert(x * x == raw[0] as int * raw[0] as int) by (nonlinear_arith)
                requires x == raw[0] || x == -raw[0];
            assert(y * y == raw[1] as int * raw[1] as int) by (nonlinear_arith)
                requires y == raw[1] || y == -raw[1];
        }
        if x * x + y * y > remaining * remaining {
            None
        } else {
            Some(Self { center, radius })
        }
    }

    #[inline(always)]
    pub fn center(self) -> (c: Position)
        ensures
            c@ == self@.0,
    {
        self.center
    }

    #[inline(always)]
    pub fn radius(self) -> (r: Length)
        ensures
            r@ == self@.1,
            0 < r@ <= MAX_POSITION,
            circle_fits(self@.0, r@ as int),
    {
        proof {
            use_type_invariant(&self);
        }
        self.radius
    }

    /// Reciprocal moment of inertia about the body origin as unsigned Q40:
    /// `I / m = r² / 2 + d²`, including the parallel-axis term of an offset center.
    pub fn inverse_inertia_q40(self, inverse_mass_q24: u32) -> (i: u64)
        ensures
            i == div_round_shift_spec(
                2 * inverse_mass_q24 as nat,
                (self@.1 * self@.1 + 2 * (self@.0.0 * self@.0.0 + self@.0.1 * self@.0.1)) as nat,
                48,
            ),
    {
        let radius = self.radius().raw() as u128;
        let center_distance_squared = self.center.squared_distance(Position::zero()) as u128;
        proof {
            use_type_invariant(&self);
            assert(radius * radius <= 0x1fff_ffff * 0x1fff_ffff) by (nonlinear_arith)
                requires radius <= 0x1fff_ffff;
            assert(radius * radius >= 1) by (nonlinear_arith)
                requires radius >= 1;
            assert(center_distance_squared <= 0x1fff_ffff * 0x1fff_ffff) by (nonlinear_arith)
                requires
                    center_distance_squared <= (0x1fff_ffff - radius) * (0x1fff_ffff - radius),
                    0 <= radius <= 0x1fff_ffff;
        }
        from_q24_per_q32_ratio(2 * inverse_mass_q24 as u128, radius * radius + 2 * center_distance_squared)
    }

    /// Returns proportional `(mass_weight, mass_weight * I/m)` values used to
    /// distribute a composite body's mass by part area.
    pub fn mass_properties(self) -> (r: (u64, u128))
        ensures
            (r.0 as int, r.1 as int) == circle_mass_properties(self@),
            0 < r.1 <= 0x388c_7ffc_7738_000e_2320_0000_0000_0000,
    {
        let radius = self.radius().raw() as u128;
        proof {
            use_type_invariant(&self);
            assert(radius * radius <= 0x1fff_ffff * 0x1fff_ffff) by (nonlinear_arith)
                requires radius <= 0x1fff_ffff;
        }
        let radius_squared = radius * radius;
        let center_squared = self.center.squared_distance(Position::zero()) as u128;
        proof {
            assert(center_squared <= 0x1fff_ffff * 0x1fff_ffff) by (nonlinear_arith)
                requires
                    center_squared <= (0x1fff_ffff - radius) * (0x1fff_ffff - radius),
                    0 <= radius <= 0x1fff_ffff;
            assert(2 * PI_Q32 * radius_squared <= 2 * PI_Q32 * (0x1fff_ffff * 0x1fff_ffff)) by (nonlinear_arith)
                requires radius_squared <= 0x1fff_ffff * 0x1fff_ffff;
        }
        let numerator: u128 = 2 * PI_Q32 * radius_squared + 0x8000_0000;
        proof {
            vstd::bits::lemma_u128_shr_is_div(numerator, 32);
            vstd::arithmetic::power2::lemma2_to64();
            vstd::arithmetic::div_mod::lemma_div_is_ordered(
                numerator as int,
                0x1_0000_0000int * 0x1922_0000_0000_0000int,
                0x1_0000_0000,
            );
            vstd::arithmetic::div_mod::lemma_div_multiples_vanish(0x1922_0000_0000_0000, 0x1_0000_0000);
            assert(radius_squared >= 1) by (nonlinear_arith)
                requires radius >= 1, radius_squared == radius * radius;
            assert(2 * PI_Q32 * radius_squared >= 2 * PI_Q32) by (nonlinear_arith)
                requires radius_squared >= 1;
            vstd::arithmetic::div_mod::lemma_div_is_ordered(0x1_0000_0000int * 6, numerator as int, 0x1_0000_0000);
            vstd::arithmetic::div_mod::lemma_div_multiples_vanish(6, 0x1_0000_0000);
        }
        let twice_area = (numerator >> 32) as u64;
        let twice_inertia_per_mass = radius_squared + 2 * center_squared;
        let mass_weight: u64 = if twice_area > u64::MAX / 6 { u64::MAX } else { twice_area * 6 };
        let tripled_area: u128 = 3 * twice_area as u128;
        proof {
            assert(tripled_area * twice_inertia_per_mass <= 0x388c_7ffc_7738_000e_2320_0000_0000_0000)
                by (nonlinear_arith)
                requires
                    tripled_area <= 3 * 0x1922_0000_0000_0000,
                    twice_inertia_per_mass <= 3 * 0x1fff_ffff * 0x1fff_ffff,
            ;
        }
        let weighted_inertia = tripled_area * twice_inertia_per_mass;
        proof {
            assert(weighted_inertia > 0) by (nonlinear_arith)
                requires tripled_area >= 18, twice_inertia_per_mass >= 1, weighted_inertia == tripled_area * twice_inertia_per_mass;
        }
        (mass_weight, weighted_inertia)
    }

    /// The circle's center transformed into the geometry domain.
    #[inline(always)]
    pub fn transformed_center(self, transform: Transform) -> (g: GeometryPoint)
        ensures
            g@.0 as int == transform.position@.0 + rotated_x(self@.0.0 as int, self@.0.1 as int, sin_cos_spec(transform.angle@)),
            g@.1 as int == transform.position@.1 + rotated_y(self@.0.0 as int, self@.0.1 as int, sin_cos_spec(transform.angle@)),
            -(2 * MAX_POSITION - self@.1) <= g@.0 <= 2 * MAX_POSITION - self@.1,
            -(2 * MAX_POSITION - self@.1) <= g@.1 <= 2 * MAX_POSITION - self@.1,
    {
        proof {
            use_type_invariant(&self);
            let r = self.radius@ as int;
            assert((MAX_POSITION - r) * (MAX_POSITION - r) <= MAX_POSITION as int * MAX_POSITION as int)
                by (nonlinear_arith)
                requires 0 < r <= MAX_POSITION;
            lemma_sin_cos_spec_bound(transform.angle@);
            let sc = sin_cos_spec(transform.angle@);
            lemma_rotation_within_radius(self.center@.0 as int, self.center@.1 as int, sc.0, sc.1, MAX_POSITION - r);
        }
        let p = transform.position.raw();
        transform.apply_geometry(self.center)
    }

    /// Bounding box of the transformed circle.
    pub fn aabb(self, transform: Transform) -> (b: Aabb)
        ensures
            b@ == circle_bounds(self@, transform),
    {
        let center = self.transformed_center(transform);
        let c = center.raw();
        let r = self.radius().raw() as i32;
        Aabb::from_raw_unchecked(c[0] - r, c[0] + r, c[1] - r, c[1] + r)
    }
}

} // verus!
