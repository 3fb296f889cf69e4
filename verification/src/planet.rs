//! The planet surface model.
//!
//! A planet is a circle of a given base radius around a center, perturbed
//! outward by a noise field: for each of `sample_count` angular steps
//! evenly spanning a full turn, the boundary's radial distance is the base
//! radius plus a height read from the noise field.  The heights are the
//! polar model that the containment queries interpolate; the Cartesian
//! surface points derived from them are what a renderer draws.
//!
//! A planet is immutable once constructed; regeneration builds a brand-new
//! planet from a fresh random noise offset and replaces the old one.

use vstd::prelude::*;

use crate::ANGLE_SCALE;
use crate::common::{
    self,
    Vec2i,
    RectI,
    sdiv_spec,
    lerp_spec,
    in_coord_range,
    point_in_range,
};
use crate::noise::Noise;
use crate::trig;
use crate::world::NOISE_SIZE;

verus! {

/// Most samples a surface may have.
pub const MAX_SAMPLES: u64 = 4096;

/// Largest accepted base radius.
pub const MAX_RADIUS: u64 = 0x10_0000;

/// Largest accepted center coordinate magnitude.
pub const CENTER_LIMIT: i64 = 0x2000_0000;

/// Margin kept between a random noise offset and the grid border, so that
/// a full orbit around the offset stays inside the grid.
pub const OFFSET_PADDING: u64 = 200;

/// Radius of the small orbit walked through the noise field: one angular
/// step of the surface reads the field this far from the chosen offset.
pub const ORBIT_RADIUS: u64 = 180;

/// Divisor scaling a byte noise sample into a height in `[0, radius / 2]`:
/// twice the largest byte value.
pub const NOISE_HEIGHT_DEN: u64 = 510;

/// A planet: center, base radius, and one boundary sample per angular step.
pub struct Planet {
    pub center: Vec2i,
    /// The unperturbed base radius.
    pub radius: u64,
    /// The farthest boundary sample from the center.
    pub max_radius: u64,
    pub extents: RectI,
    /// Cartesian surface samples, one per angular step.
    pub surface: Vec<Vec2i>,
    /// Radial distance of each surface sample from the center: the polar
    /// form of the boundary that the containment queries interpolate.
    pub heights: Vec<u64>,
}

/// Whether `v` is a valid noise-grid offset coordinate: far enough from
/// the border that a whole orbit stays in bounds.
pub open spec fn offset_ok(v: int) -> bool {
    OFFSET_PADDING <= v < NOISE_SIZE - OFFSET_PADDING
}

/// The height the noise field adds to the base radius at angular step `i`
/// of `n`, for the orbit anchored at `(xo, yo)`: the field is read while
/// orbiting the anchor at [`ORBIT_RADIUS`] through the same angle, and the
/// byte sample is scaled to `[0, radius / 2]`.
pub open spec fn surface_height_spec(
    grid: Seq<u8>,
    xo: int,
    yo: int,
    i: int,
    n: int,
    radius: int,
) -> int {
    let t = n * ANGLE_SCALE;
    let angle = i * ANGLE_SCALE;
    let nx = xo + sdiv_spec(ORBIT_RADIUS * trig::sine_spec(angle, t), trig::TRIG_ONE as int);
    let ny = yo + sdiv_spec(ORBIT_RADIUS * trig::cosine_spec(angle, t), trig::TRIG_ONE as int);
    (grid[ny * (NOISE_SIZE as int) + nx] * radius) / (NOISE_HEIGHT_DEN as int)
}

/// The x coordinate of the surface sample at angular step `i` of `n`,
/// `h` away from the center.
pub open spec fn sample_point_x_spec(center: Vec2i, h: int, i: int, n: int) -> int {
    center.x + sdiv_spec(h * trig::sine_spec(i * ANGLE_SCALE, n * ANGLE_SCALE), trig::TRIG_ONE as int)
}

/// The y coordinate of the surface sample at angular step `i` of `n`.
pub open spec fn sample_point_y_spec(center: Vec2i, h: int, i: int, n: int) -> int {
    center.y + sdiv_spec(h * trig::cosine_spec(i * ANGLE_SCALE, n * ANGLE_SCALE), trig::TRIG_ONE as int)
}

impl Planet {
    /// Number of surface samples.
    pub open spec fn n(self) -> int {
        self.heights@.len() as int
    }

    /// Angle units in a full turn around this planet's surface.
    pub open spec fn turn(self) -> int {
        self.n() * ANGLE_SCALE
    }

    /// The base radius.
    pub open spec fn radius_spec(self) -> int {
        self.radius as int
    }

    /// The farthest boundary sample from the center.
    pub open spec fn max_radius_spec(self) -> int {
        self.max_radius as int
    }

    /// Well-formedness: the polar heights stay within half a radius of the
    /// base radius, the Cartesian samples are placed from the heights, the
    /// extents bound the samples tightly, and `max_radius` is the largest
    /// height.
    pub open spec fn wf(self) -> bool {
        &&& 2 <= self.n() <= MAX_SAMPLES
        &&& self.surface@.len() == self.n()
        &&& 1 <= self.radius_spec() <= MAX_RADIUS
        &&& -CENTER_LIMIT <= self.center.x <= CENTER_LIMIT
        &&& -CENTER_LIMIT <= self.center.y <= CENTER_LIMIT
        &&& forall|i: int|
            0 <= i < self.n() ==> self.radius_spec() <= #[trigger] self.heights@[i]
                <= self.radius_spec() + self.radius_spec() / 2
        &&& forall|i: int|
            0 <= i < self.n() ==> #[trigger] self.heights@[i] <= self.max_radius_spec()
        &&& exists|i: int| 0 <= i < self.n() && self.heights@[i] == self.max_radius_spec()
        &&& forall|i: int|
            0 <= i < self.n() ==> #[trigger] self.surface@[i].x == sample_point_x_spec(
                self.center,
                self.heights@[i] as int,
                i,
                self.n(),
            ) && self.surface@[i].y == sample_point_y_spec(
                self.center,
                self.heights@[i] as int,
                i,
                self.n(),
            )
        &&& forall|i: int| 0 <= i < self.n() ==> point_in_range(#[trigger] self.surface@[i])
        &&& forall|i: int|
            0 <= i < self.n() ==> self.extents.x <= (#[trigger] self.surface@[i]).x
                <= self.extents.x + self.extents.w && self.extents.y <= self.surface@[i].y
                <= self.extents.y + self.extents.h
        &&& exists|i: int| 0 <= i < self.n() && (#[trigger] self.surface@[i]).x == self.extents.x
        &&& exists|i: int|
            0 <= i < self.n() && (#[trigger] self.surface@[i]).x == self.extents.x + self.extents.w
        &&& exists|i: int| 0 <= i < self.n() && (#[trigger] self.surface@[i]).y == self.extents.y
        &&& exists|i: int|
            0 <= i < self.n() && (#[trigger] self.surface@[i]).y == self.extents.y + self.extents.h
    }

}

impl Planet {
    /// Builds a planet around `center` with the given base radius: one
    /// random noise offset is drawn for the whole construction, and every
    /// angular step's boundary height is read from the noise field by
    /// orbiting that offset.
    pub fn new(center: Vec2i, radius: u64, noise: &Noise, sample_count: u64) -> (r: Planet)
        requires
            noise.wf(),
            -CENTER_LIMIT <= center.x <= CENTER_LIMIT,
            -CENTER_LIMIT <= center.y <= CENTER_LIMIT,
            1 <= radius <= MAX_RADIUS,
            2 <= sample_count <= MAX_SAMPLES,
        ensures
            r.wf(),
            r.center == center,
            r.radius_spec() == radius,
            r.n() == sample_count,
            exists|xo: int, yo: int|
                offset_ok(xo) && offset_ok(yo) && forall|i: int|
                    0 <= i < r.n() ==> #[trigger] r.heights@[i] == radius + surface_height_spec(
                        noise.grid(),
                        xo,
                        yo,
                        i,
                        r.n(),
                        radius as int,
                    ),
    {
        let xoffset: u64 = random_in_range(OFFSET_PADDING, (NOISE_SIZE as u64) - OFFSET_PADDING);
        let yoffset: u64 = random_in_range(OFFSET_PADDING, (NOISE_SIZE as u64) - OFFSET_PADDING);
        let (surface, heights) = Self::create_surface(
            sample_count,
            center,
            radius,
            noise,
            xoffset,
            yoffset,
        );
        let (extents, max_radius) = Self::calculate_extents(&surface, &heights);
        let ghost kh = choose|i: int| 0 <= i < heights@.len() && #[trigger] heights@[i]
            == max_radius;
        let ghost kx0 = choose|i: int|
            0 <= i < surface@.len() && (#[trigger] surface@[i]).x == extents.x;
        let ghost kx1 = choose|i: int|
            0 <= i < surface@.len() && (#[trigger] surface@[i]).x == extents.x + extents.w;
        let ghost ky0 = choose|i: int|
            0 <= i < surface@.len() && (#[trigger] surface@[i]).y == extents.y;
        let ghost ky1 = choose|i: int|
            0 <= i < surface@.len() && (#[trigger] surface@[i]).y == extents.y + extents.h;
        let r = Planet { center, radius, max_radius, extents, surface, heights };
        proof {
            assert(offset_ok(xoffset as int) && offset_ok(yoffset as int) && forall|i: int|
                0 <= i < r.n() ==> #[trigger] r.heights@[i] == radius + surface_height_spec(
                    noise.grid(),
                    xoffset as int,
                    yoffset as int,
                    i,
                    r.n(),
                    radius as int,
                ));
            assert(r.heights@[kh] == r.max_radius_spec());
            assert(r.surface@[kx0].x == r.extents.x);
            assert(r.surface@[kx1].x == r.extents.x + r.extents.w);
            assert(r.surface@[ky0].y == r.extents.y);
            assert(r.surface@[ky1].y == r.extents.y + r.extents.h);
            assert(r.wf());
        }
        r
    }

    /// Places one boundary sample per angular step: the polar height comes
    /// from the noise field orbited at the chosen offset, and the
    /// Cartesian point is the center displaced by that height along the
    /// step's direction.
    #[verifier::loop_isolation(false)]
    fn create_surface(
        sample_count: u64,
        center: Vec2i,
        radius: u64,
        noise: &Noise,
        xo: u64,
        yo: u64,
    ) -> (r: (Vec<Vec2i>, Vec<u64>))
        requires
            noise.wf(),
            -CENTER_LIMIT <= center.x <= CENTER_LIMIT,
            -CENTER_LIMIT <= center.y <= CENTER_LIMIT,
            1 <= radius <= MAX_RADIUS,
            2 <= sample_count <= MAX_SAMPLES,
            offset_ok(xo as int),
            offset_ok(yo as int),
        ensures
            r.0@.len() == sample_count,
            r.1@.len() == sample_count,
            forall|i: int|
                0 <= i < sample_count ==> #[trigger] r.1@[i] == radius + surface_height_spec(
                    noise.grid(),
                    xo as int,
                    yo as int,
                    i,
                    sample_count as int,
                    radius as int,
                ),
            forall|i: int|
                0 <= i < sample_count ==> radius <= #[trigger] r.1@[i] <= radius + radius / 2,
            forall|i: int|
                0 <= i < sample_count ==> #[trigger] r.0@[i].x == sample_point_x_spec(
                    center,
                    r.1@[i] as int,
                    i,
                    sample_count as int,
                ) && r.0@[i].y == sample_point_y_spec(
                    center,
                    r.1@[i] as int,
                    i,
                    sample_count as int,
                ),
            forall|i: int| 0 <= i < sample_count ==> point_in_range(#[trigger] r.0@[i]),
    {
        proof {
            assert(sample_count * ANGLE_SCALE <= MAX_SAMPLES * ANGLE_SCALE && 2 * ANGLE_SCALE
                <= sample_count * ANGLE_SCALE) by (nonlinear_arith)
                requires
                    2 <= sample_count <= MAX_SAMPLES,
            ;
            assert((sample_count * ANGLE_SCALE) % 8 == 0) by {
                vstd::arithmetic::div_mod::lemma_mod_multiples_basic(
                    sample_count * 128,
                    8,
                );
                assert(sample_count * ANGLE_SCALE == (sample_count * 128) * 8) by (nonlinear_arith);
            }
        }
        let turn: u64 = sample_count * ANGLE_SCALE;
        let mut surface: Vec<Vec2i> = Vec::new();
        let mut heights: Vec<u64> = Vec::new();
        let mut point: u64 = 0;
        while point < sample_count
            invariant
                point <= sample_count,
                surface@.len() == point,
                heights@.len() == point,
                forall|j: int|
                    0 <= j < point ==> #[trigger] heights@[j] == radius + surface_height_spec(
                        noise.grid(),
                        xo as int,
                        yo as int,
                        j,
                        sample_count as int,
                        radius as int,
                    ),
                forall|j: int|
                    0 <= j < point ==> radius <= #[trigger] heights@[j] <= radius + radius / 2,
                forall|j: int|
                    0 <= j < point ==> #[trigger] surface@[j].x == sample_point_x_spec(
                        center,
                        heights@[j] as int,
                        j,
                        sample_count as int,
                    ) && surface@[j].y == sample_point_y_spec(
                        center,
                        heights@[j] as int,
                        j,
                        sample_count as int,
                    ),
                forall|j: int| 0 <= j < point ==> point_in_range(#[trigger] surface@[j]),
            decreases sample_count - point,
        {
            proof {
                vstd::arithmetic::mul::lemma_mul_strict_inequality(
                    point as int,
                    sample_count as int,
                    ANGLE_SCALE as int,
                );
            }
            let angle: u64 = point * ANGLE_SCALE;
            let s: i64 = trig::sine_fx(angle, turn);
            let c: i64 = trig::cosine_fx(angle, turn);
            proof {
                assert(-((ORBIT_RADIUS * trig::TRIG_ONE) as i64) <= (ORBIT_RADIUS as i64) * s <= (
                ORBIT_RADIUS * trig::TRIG_ONE) as i64 && -((ORBIT_RADIUS * trig::TRIG_ONE) as i64)
                    <= (ORBIT_RADIUS as i64) * c <= (ORBIT_RADIUS * trig::TRIG_ONE) as i64) by (
                nonlinear_arith)
                    requires
                        -trig::TRIG_ONE <= s <= trig::TRIG_ONE,
                        -trig::TRIG_ONE <= c <= trig::TRIG_ONE,
                ;
            }
            let orbit_x: i64 = (ORBIT_RADIUS as i64) * s;
            let orbit_y: i64 = (ORBIT_RADIUS as i64) * c;
            proof {
                common::lemma_sdiv_mag(orbit_x as int, trig::TRIG_ONE as int, ORBIT_RADIUS as int);
                common::lemma_sdiv_mag(orbit_y as int, trig::TRIG_ONE as int, ORBIT_RADIUS as int);
            }
            let dx: i64 = common::sdiv(orbit_x, trig::TRIG_ONE as u64);
            let dy: i64 = common::sdiv(orbit_y, trig::TRIG_ONE as u64);
            let nx: i64 = (xo as i64) + dx;
            let ny: i64 = (yo as i64) + dy;
            let sample: u8 = noise.get_point(nx as u32, ny as u32);
            proof {
                assert((sample as int) * (radius as int) <= 255 * (radius as int) && 0 <= (
                sample as int) * (radius as int)) by (nonlinear_arith)
                    requires
                        0 <= sample <= 255,
                        0 <= radius,
                ;
                vstd::arithmetic::div_mod::lemma_div_is_ordered(
                    (sample as int) * (radius as int),
                    255 * (radius as int),
                    NOISE_HEIGHT_DEN as int,
                );
                vstd::arithmetic::div_mod::lemma_div_denominator(
                    255 * (radius as int),
                    255,
                    2,
                );
                vstd::arithmetic::div_mod::lemma_div_multiples_vanish(radius as int, 255);
                vstd::arithmetic::div_mod::lemma_div_pos_is_pos(
                    (sample as int) * (radius as int),
                    NOISE_HEIGHT_DEN as int,
                );
            }
            let height: u64 = (sample as u64) * radius / NOISE_HEIGHT_DEN;
            let ht: u64 = radius + height;
            proof {
                assert(-((ht * trig::TRIG_ONE) as i64) <= (ht as i64) * s <= (ht
                    * trig::TRIG_ONE) as i64 && -((ht * trig::TRIG_ONE) as i64) <= (ht as i64) * c
                    <= (ht * trig::TRIG_ONE) as i64 && ht * trig::TRIG_ONE <= 0x18_0000 * 4096) by (
                nonlinear_arith)
                    requires
                        -trig::TRIG_ONE <= s <= trig::TRIG_ONE,
                        -trig::TRIG_ONE <= c <= trig::TRIG_ONE,
                        0 <= ht <= 0x18_0000,
                ;
            }
            let span_x: i64 = (ht as i64) * s;
            let span_y: i64 = (ht as i64) * c;
            proof {
                common::lemma_sdiv_mag(span_x as int, trig::TRIG_ONE as int, ht as int);
                common::lemma_sdiv_mag(span_y as int, trig::TRIG_ONE as int, ht as int);
            }
            let px: i64 = center.x + common::sdiv(span_x, trig::TRIG_ONE as u64);
            let py: i64 = center.y + common::sdiv(span_y, trig::TRIG_ONE as u64);
            surface.push(Vec2i { x: px, y: py });
            heights.push(ht);
            point = point + 1;
        }
        (surface, heights)
    }

    /// One pass over the boundary samples: the tight axis-aligned bounding
    /// box of the Cartesian points, and the largest polar height.
    #[verifier::loop_isolation(false)]
    fn calculate_extents(surface: &Vec<Vec2i>, heights: &Vec<u64>) -> (r: (RectI, u64))
        requires
            surface@.len() == heights@.len(),
            surface@.len() >= 1,
            forall|i: int| 0 <= i < surface@.len() ==> point_in_range(#[trigger] surface@[i]),
        ensures
            forall|i: int|
                0 <= i < surface@.len() ==> r.0.x <= (#[trigger] surface@[i]).x <= r.0.x + r.0.w
                    && r.0.y <= surface@[i].y <= r.0.y + r.0.h,
            exists|i: int| 0 <= i < surface@.len() && (#[trigger] surface@[i]).x == r.0.x,
            exists|i: int| 0 <= i < surface@.len() && (#[trigger] surface@[i]).x == r.0.x + r.0.w,
            exists|i: int| 0 <= i < surface@.len() && (#[trigger] surface@[i]).y == r.0.y,
            exists|i: int| 0 <= i < surface@.len() && (#[trigger] surface@[i]).y == r.0.y + r.0.h,
            forall|i: int| 0 <= i < heights@.len() ==> #[trigger] heights@[i] <= r.1,
            exists|i: int| 0 <= i < heights@.len() && #[trigger] heights@[i] == r.1,
    {
        let first = surface[0];
        let mut min_x: i64 = first.x;
        let mut max_x: i64 = first.x;
        let mut min_y: i64 = first.y;
        let mut max_y: i64 = first.y;
        let mut max_radius: u64 = heights[0];
        let mut i: usize = 1;
        while i < surface.len()
            invariant
                1 <= i <= surface@.len(),
                min_x <= max_x,
                min_y <= max_y,
                forall|j: int|
                    0 <= j < i ==> min_x <= (#[trigger] surface@[j]).x <= max_x && min_y
                        <= surface@[j].y <= max_y,
                exists|j: int| 0 <= j < i && (#[trigger] surface@[j]).x == min_x,
                exists|j: int| 0 <= j < i && (#[trigger] surface@[j]).x == max_x,
                exists|j: int| 0 <= j < i && (#[trigger] surface@[j]).y == min_y,
                exists|j: int| 0 <= j < i && (#[trigger] surface@[j]).y == max_y,
                forall|j: int| 0 <= j < i ==> #[trigger] heights@[j] <= max_radius,
                exists|j: int| 0 <= j < i && #[trigger] heights@[j] == max_radius,
                in_coord_range(min_x),
                in_coord_range(max_x),
                in_coord_range(min_y),
                in_coord_range(max_y),
            decreases surface@.len() - i,
        {
            let p = surface[i];
            if p.x < min_x {
                min_x = p.x;
            }
            if p.x > max_x {
                max_x = p.x;
            }
            if p.y < min_y {
                min_y = p.y;
            }
            if p.y > max_y {
                max_y = p.y;
            }
            let h = heights[i];
            if h > max_radius {
                max_radius = h;
            }
            i = i + 1;
        }
        (RectI { x: min_x, y: min_y, w: max_x - min_x, h: max_y - min_y }, max_radius)
    }
}

impl Planet {
    /// The interpolated boundary radius at `angle`: the two bracketing
    /// samples are the angle's slot and its successor (wrapping at the
    /// seam), interpolated by the fractional position within the slot.
    pub open spec fn boundary_at(self, angle: int) -> int {
        let lo = angle / (ANGLE_SCALE as int);
        let hi = if lo + 1 == self.n() {
            0
        } else {
            lo + 1
        };
        lerp_spec(
            self.heights@[lo] as int,
            self.heights@[hi] as int,
            angle % (ANGLE_SCALE as int),
            ANGLE_SCALE as int,
        )
    }

    /// Whether a point `distance` away from the center at `angle` lies
    /// strictly below the interpolated boundary.
    pub open spec fn contains_polar(self, distance: int, angle: int) -> bool {
        distance < self.boundary_at(angle)
    }

    /// Whether the Cartesian point `p` lies strictly inside the boundary:
    /// its distance from the center against the boundary interpolated at
    /// its angle around the center.
    pub open spec fn contains_point(self, p: Vec2i) -> bool {
        let a = trig::angle_of_spec(p.x - self.center.x, p.y - self.center.y, self.turn());
        common::dist(p, self.center) < self.boundary_at(a)
    }

    /// The indexed containment query: `angle` is converted directly to its
    /// sample slot and successor, and `distance` is compared against the
    /// boundary radius interpolated between the two.
    pub fn is_inside(planet: &Planet, distance: u64, angle: u64) -> (r: bool)
        requires
            planet.wf(),
            angle < planet.turn(),
        ensures
            r == planet.contains_polar(distance as int, angle as int),
    {
        let lo: usize = (angle / ANGLE_SCALE) as usize;
        proof {
            assert((angle as int) / (ANGLE_SCALE as int) < planet.n());
        }
        let hi: usize = if lo + 1 == planet.heights.len() {
            0
        } else {
            lo + 1
        };
        let frac: u64 = angle % ANGLE_SCALE;
        let boundary: u64 = common::lerp(planet.heights[lo], planet.heights[hi], frac, ANGLE_SCALE);
        distance < boundary
    }
}

/// The angular offset from `angle` forward to sample `j` of `n`, before
/// wrapping: non-negative, less than a full turn.
pub open spec fn raw_diff(j: int, angle: int, n: int) -> int {
    if j * ANGLE_SCALE >= angle {
        j * ANGLE_SCALE - angle
    } else {
        j * ANGLE_SCALE - angle + n * ANGLE_SCALE
    }
}

/// The signed angular difference from `angle` to sample `j` of `n`,
/// wrapped into `(-turn/2, turn/2]`: positive when the sample sits
/// counter-clockwise of the angle, negative when clockwise.
pub open spec fn wrapped_diff(j: int, angle: int, n: int) -> int {
    let raw = raw_diff(j, angle, n);
    if 2 * raw > n * ANGLE_SCALE {
        raw - n * ANGLE_SCALE
    } else {
        raw
    }
}

/// The remainder computed by the scan equals the closed-form raw offset.
proof fn lemma_raw_is_mod(j: int, angle: int, n: int)
    requires
        2 <= n,
        0 <= j < n,
        0 <= angle < n * ANGLE_SCALE,
    ensures
        (j * ANGLE_SCALE + n * ANGLE_SCALE - angle) % (n * ANGLE_SCALE) == raw_diff(j, angle, n),
        0 <= raw_diff(j, angle, n) < n * ANGLE_SCALE,
{
    let t = n * ANGLE_SCALE;
    vstd::arithmetic::mul::lemma_mul_strict_inequality(j, n, ANGLE_SCALE as int);
    if j * ANGLE_SCALE >= angle {
        let b = j * ANGLE_SCALE - angle;
        vstd::arithmetic::div_mod::lemma_mod_add_multiples_vanish(b, t);
        vstd::arithmetic::div_mod::lemma_small_mod(b as nat, t as nat);
    } else {
        let x = j * ANGLE_SCALE + t - angle;
        vstd::arithmetic::div_mod::lemma_small_mod(x as nat, t as nat);
    }
}

/// The scan's bracketing minima in closed form, for a query angle within
/// an `n`-sample surface.  Among all samples, the smallest non-negative
/// wrapped difference is reached exactly at the slot successor (the angle
/// itself when it falls on a sample), and the smallest magnitude among
/// negative wrapped differences exactly at the slot (its predecessor when
/// the angle falls on a sample) — the bracketing pair is adjacent in the
/// sample sequence, wrapping at the seam.  With only two samples and the
/// angle on a sample, no sample sits clockwise at all.
pub proof fn lemma_bracket_minima(angle: int, n: int)
    requires
        2 <= n <= MAX_SAMPLES,
        0 <= angle < n * ANGLE_SCALE,
    ensures
        ({
            let lo = angle / (ANGLE_SCALE as int);
            let fr = angle % (ANGLE_SCALE as int);
            let jr = if fr == 0 {
                lo
            } else if lo + 1 == n {
                0
            } else {
                lo + 1
            };
            let c = if fr == 0 {
                0int
            } else {
                ANGLE_SCALE - fr
            };
            let jl = if fr != 0 {
                lo
            } else if lo == 0 {
                n - 1
            } else {
                lo - 1
            };
            let l = if fr == 0 {
                ANGLE_SCALE as int
            } else {
                fr
            };
            &&& wrapped_diff(jr, angle, n) == c
            &&& forall|j: int|
                0 <= j < n && #[trigger] wrapped_diff(j, angle, n) >= 0 ==> wrapped_diff(
                    j,
                    angle,
                    n,
                ) >= c
            &&& forall|j: int|
                0 <= j < n && #[trigger] wrapped_diff(j, angle, n) == c ==> j == jr
            &&& (fr != 0 || n > 2) ==> {
                &&& wrapped_diff(jl, angle, n) == -l
                &&& forall|j: int|
                    0 <= j < n && #[trigger] wrapped_diff(j, angle, n) < 0 ==> -wrapped_diff(
                        j,
                        angle,
                        n,
                    ) >= l
                &&& forall|j: int|
                    0 <= j < n && #[trigger] wrapped_diff(j, angle, n) == -l ==> j == jl
                &&& jr == if jl + 1 == n {
                    0int
                } else {
                    jl + 1
                }
            }
            &&& (fr == 0 && n == 2) ==> forall|j: int|
                0 <= j < n ==> #[trigger] wrapped_diff(j, angle, n) >= 0
        }),
{
    let lo = angle / (ANGLE_SCALE as int);
    let fr = angle % (ANGLE_SCALE as int);
    vstd::arithmetic::div_mod::lemma_fundamental_div_mod(angle, ANGLE_SCALE as int);
    vstd::arithmetic::div_mod::lemma_mod_bound(angle, ANGLE_SCALE as int);
    assert(angle == ANGLE_SCALE * lo + fr);
    assert(0 <= lo < n);
    assert forall|j: int| 0 <= j < n implies 0 <= #[trigger] raw_diff(j, angle, n) < n
        * ANGLE_SCALE by {
        lemma_raw_is_mod(j, angle, n);
    }
}

impl Planet {
    /// The exact containment query: finds the query point's angle around
    /// the center, scans every surface sample for the pair whose angles
    /// most tightly bracket it (by signed wrapped angular difference), and
    /// compares the point's distance from the center against the boundary
    /// interpolated between the bracketing pair.  When no sample sits on
    /// one side — possible only with two samples and the angle exactly on
    /// a sample — the query falls back to the nearest single sample.  The
    /// scan provably lands on the same interpolated boundary as the
    /// indexed query.
    #[verifier::loop_isolation(false)]
    #[verifier::rlimit(60)]
    pub fn is_inside_expensive(planet: &Planet, point: Vec2i) -> (r: bool)
        requires
            planet.wf(),
            point_in_range(point),
        ensures
            r == planet.contains_point(point),
    {
        let n: u64 = planet.heights.len() as u64;
        proof {
            assert(n * ANGLE_SCALE <= MAX_SAMPLES * ANGLE_SCALE && 2 * ANGLE_SCALE <= n
                * ANGLE_SCALE) by (nonlinear_arith)
                requires
                    2 <= n <= MAX_SAMPLES,
            ;
            assert((n * ANGLE_SCALE) % 8 == 0) by {
                vstd::arithmetic::div_mod::lemma_mod_multiples_basic(n * 128, 8);
                assert(n * ANGLE_SCALE == (n * 128) * 8) by (nonlinear_arith);
            }
        }
        let turn: u64 = n * ANGLE_SCALE;
        let dist_c: u64 = common::distance(point, planet.center);
        let angle: u64 = trig::angle_of(point.x - planet.center.x, point.y - planet.center.y, turn);
        let mut has_right: bool = false;
        let mut jr: usize = 0;
        let mut dr: u64 = 0;
        let mut has_left: bool = false;
        let mut jl: usize = 0;
        let mut lm: u64 = 0;
        let mut j: usize = 0;
        while j < planet.heights.len()
            invariant
                0 <= j <= n,
                has_right ==> 0 <= jr < j && wrapped_diff(jr as int, angle as int, n as int)
                    == dr && 2 * dr <= turn,
                has_right ==> forall|k: int|
                    0 <= k < j && #[trigger] wrapped_diff(k, angle as int, n as int) >= 0
                        ==> dr <= wrapped_diff(k, angle as int, n as int),
                !has_right ==> forall|k: int|
                    0 <= k < j ==> #[trigger] wrapped_diff(k, angle as int, n as int) < 0,
                has_left ==> 0 <= jl < j && wrapped_diff(jl as int, angle as int, n as int) == -(
                lm as int) && 1 <= lm && 2 * lm < turn,
                has_left ==> forall|k: int|
                    0 <= k < j && #[trigger] wrapped_diff(k, angle as int, n as int) < 0 ==> lm
                        <= -wrapped_diff(k, angle as int, n as int),
                !has_left ==> forall|k: int|
                    0 <= k < j ==> #[trigger] wrapped_diff(k, angle as int, n as int) >= 0,
            decreases n - j,
        {
            proof {
                vstd::arithmetic::mul::lemma_mul_strict_inequality(
                    j as int,
                    n as int,
                    ANGLE_SCALE as int,
                );
                lemma_raw_is_mod(j as int, angle as int, n as int);
            }
            let sample_angle: u64 = (j as u64) * ANGLE_SCALE;
            let raw: u64 = (sample_angle + turn - angle) % turn;
            if 2 * raw <= turn {
                if !has_right || raw < dr {
                    has_right = true;
                    jr = j;
                    dr = raw;
                }
            } else {
                let mag: u64 = turn - raw;
                if !has_left || mag < lm {
                    has_left = true;
                    jl = j;
                    lm = mag;
                }
            }
            j = j + 1;
        }
        proof {
            lemma_bracket_minima(angle as int, n as int);
        }
        let boundary: u64 = if has_right && has_left {
            proof {
                lemma_interior_boundary(planet, angle as int, jl as int, jr as int, lm as int, dr as int);
            }
            common::lerp(planet.heights[jl], planet.heights[jr], lm, lm + dr)
        } else if has_right {
            proof {
                lemma_lone_boundary(planet, angle as int, jr as int);
            }
            planet.heights[jr]
        } else {
            proof {
                assert(wrapped_diff(
                    ((angle as int) / (ANGLE_SCALE as int)) as int,
                    angle as int,
                    n as int,
                ) >= 0 ==> false);
                assert(false);
            }
            planet.heights[0]
        };
        dist_c < boundary
    }
}

/// With both brackets found, the interpolation between them by angular
/// proportion is exactly the indexed boundary at the query angle.
proof fn lemma_interior_boundary(planet: &Planet, angle: int, jl: int, jr: int, lm: int, dr: int)
    requires
        planet.wf(),
        0 <= angle < planet.turn(),
        0 <= jl < planet.n(),
        0 <= jr < planet.n(),
        wrapped_diff(jl, angle, planet.n()) == -lm,
        wrapped_diff(jr, angle, planet.n()) == dr,
        1 <= lm,
        2 * lm < planet.turn(),
        0 <= 2 * dr <= planet.turn(),
        forall|k: int|
            0 <= k < planet.n() && #[trigger] wrapped_diff(k, angle, planet.n()) >= 0 ==> dr
                <= wrapped_diff(k, angle, planet.n()),
        forall|k: int|
            0 <= k < planet.n() && #[trigger] wrapped_diff(k, angle, planet.n()) < 0 ==> lm
                <= -wrapped_diff(k, angle, planet.n()),
    ensures
        lm + dr >= 1,
        lm + dr <= 2 * ANGLE_SCALE,
        lerp_spec(
            planet.heights@[jl] as int,
            planet.heights@[jr] as int,
            lm,
            lm + dr,
        ) == planet.boundary_at(angle),
{
    let n = planet.n();
    let lo = angle / (ANGLE_SCALE as int);
    let fr = angle % (ANGLE_SCALE as int);
    vstd::arithmetic::div_mod::lemma_fundamental_div_mod(angle, ANGLE_SCALE as int);
    vstd::arithmetic::div_mod::lemma_mod_bound(angle, ANGLE_SCALE as int);
    lemma_bracket_minima(angle, n);
    let jr0 = if fr == 0 {
        lo
    } else if lo + 1 == n {
        0int
    } else {
        lo + 1
    };
    let c = if fr == 0 {
        0int
    } else {
        ANGLE_SCALE - fr
    };
    let jl0 = if fr != 0 {
        lo
    } else if lo == 0 {
        n - 1
    } else {
        lo - 1
    };
    let l = if fr == 0 {
        ANGLE_SCALE as int
    } else {
        fr
    };
    // The left bracket exists, so not the two-sample seam case: the scan
    // minima are the closed-form pair.
    assert(!(fr == 0 && n == 2));
    assert(wrapped_diff(jl0, angle, n) == -l && wrapped_diff(jr0, angle, n) == c);
    assert(dr <= c && lm <= l);
    assert(c <= dr && l <= lm);
    assert(jr == jr0 && jl == jl0);
    if fr == 0 {
        lemma_lerp_full(planet.heights@[jl] as int, planet.heights@[jr] as int, lm + dr);
        lemma_lerp_zero(
            planet.heights@[lo] as int,
            planet.heights@[if lo + 1 == n {
                0int
            } else {
                lo + 1
            }] as int,
            ANGLE_SCALE as int,
        );
    }
}

/// With only the counter-clockwise bracket found (two samples, angle on a
/// sample), that sample's height is exactly the indexed boundary.
proof fn lemma_lone_boundary(planet: &Planet, angle: int, jr: int)
    requires
        planet.wf(),
        0 <= angle < planet.turn(),
        0 <= jr < planet.n(),
        wrapped_diff(jr, angle, planet.n()) >= 0,
        forall|k: int|
            0 <= k < planet.n() && #[trigger] wrapped_diff(k, angle, planet.n()) >= 0
                ==> wrapped_diff(jr, angle, planet.n()) <= wrapped_diff(k, angle, planet.n()),
        forall|k: int| 0 <= k < planet.n() ==> #[trigger] wrapped_diff(k, angle, planet.n()) >= 0,
    ensures
        planet.heights@[jr] == planet.boundary_at(angle),
{
    let n = planet.n();
    let lo = angle / (ANGLE_SCALE as int);
    let fr = angle % (ANGLE_SCALE as int);
    vstd::arithmetic::div_mod::lemma_fundamental_div_mod(angle, ANGLE_SCALE as int);
    vstd::arithmetic::div_mod::lemma_mod_bound(angle, ANGLE_SCALE as int);
    lemma_bracket_minima(angle, n);
    let jl0 = if fr != 0 {
        lo
    } else if lo == 0 {
        n - 1
    } else {
        lo - 1
    };
    let l = if fr == 0 {
        ANGLE_SCALE as int
    } else {
        fr
    };
    if fr != 0 || n > 2 {
        assert(wrapped_diff(jl0, angle, n) == -l);
        assert(false);
    }
    assert(fr == 0 && n == 2);
    assert(wrapped_diff(lo, angle, n) == 0);
    assert(jr == lo);
    lemma_lerp_zero(
        planet.heights@[lo] as int,
        planet.heights@[if lo + 1 == n {
            0int
        } else {
            lo + 1
        }] as int,
        ANGLE_SCALE as int,
    );
}

/// Interpolating all the way lands on the second endpoint.
proof fn lemma_lerp_full(x: int, y: int, den: int)
    requires
        1 <= den,
    ensures
        lerp_spec(x, y, den, den) == y,
{
    if y >= x {
        vstd::arithmetic::mul::lemma_mul_is_commutative(y - x, den);
        vstd::arithmetic::div_mod::lemma_div_multiples_vanish(y - x, den);
    } else {
        vstd::arithmetic::mul::lemma_mul_is_commutative(x - y, den);
        vstd::arithmetic::div_mod::lemma_div_multiples_vanish(x - y, den);
    }
}

/// Interpolating not at all lands on the first endpoint.
proof fn lemma_lerp_zero(x: int, y: int, den: int)
    requires
        1 <= den,
    ensures
        lerp_spec(x, y, 0, den) == x,
{
    if y >= x {
        vstd::arithmetic::mul::lemma_mul_basics(y - x);
        vstd::arithmetic::div_mod::lemma_div_of0(den);
    } else {
        vstd::arithmetic::mul::lemma_mul_basics(x - y);
        vstd::arithmetic::div_mod::lemma_div_of0(den);
    }
}

/// An RGBA pixel grid, four bytes per pixel, rows top to bottom.
pub struct Image {
    pub bytes: Vec<u8>,
    pub width: u16,
    pub height: u16,
}

/// The color of the crust band `up` units above the base radius, for a
/// point inside the boundary: a banded palette keyed by depth in fixed
/// 100-unit increments up to a capped final band.
pub open spec fn crust_color(up: int) -> (u8, u8, u8, u8) {
    if up < 100 {
        (221u8, 181u8, 110u8, 255u8)
    } else if up < 200 {
        (178u8, 166u8, 72u8, 255u8)
    } else if up < 300 {
        (85u8, 150u8, 83u8, 255u8)
    } else if up < 400 {
        (141u8, 153u8, 40u8, 255u8)
    } else if up < 500 {
        (125u8, 165u8, 123u8, 255u8)
    } else if up < 600 {
        (193u8, 212u8, 169u8, 255u8)
    } else if up == 600 {
        (255u8, 255u8, 212u8, 255u8)
    } else {
        (255u8, 255u8, 255u8, 255u8)
    }
}

impl Planet {
    /// The color of the rasterized pixel at column `x`, row `y` of the
    /// planet's bounding box: a fixed core color strictly inside the base
    /// radius, fully transparent beyond the farthest sample, and in the
    /// crust band between the two either a depth-keyed material color
    /// (inside the boundary) or one of two atmosphere bands split at a
    /// depth threshold.
    pub open spec fn pixel_rgba(self, x: int, y: int) -> (u8, u8, u8, u8) {
        let p = (Vec2i { x: (self.extents.x + x) as i64, y: (self.extents.y + y) as i64 });
        let d = common::dist(p, self.center) as int;
        if d < self.radius_spec() {
            (110u8, 90u8, 55u8, 255u8)
        } else if d > self.max_radius_spec() {
            (0u8, 0u8, 0u8, 0u8)
        } else {
            let a = trig::angle_of_spec(p.x - self.center.x, p.y - self.center.y, self.turn());
            let up = d - self.radius_spec();
            if self.contains_polar(d, a) {
                crust_color(up)
            } else if up < 200 {
                (13u8, 148u8, 138u8, 255u8)
            } else {
                (0u8, 0u8, 0u8, 0u8)
            }
        }
    }

    /// Byte `k` of the rasterized image: channel `k % 4` of pixel `k / 4`.
    pub open spec fn image_byte(self, k: int) -> u8 {
        let px = (k / 4) % (self.extents.w as int);
        let py = (k / 4) / (self.extents.w as int);
        let c = self.pixel_rgba(px, py);
        let ch = k % 4;
        if ch == 0 {
            c.0
        } else if ch == 1 {
            c.1
        } else if ch == 2 {
            c.2
        } else {
            c.3
        }
    }

    /// The whole rasterized image as a byte sequence: a pure function of
    /// the planet alone, so rasterizing twice yields identical bytes.
    pub open spec fn image_spec(self) -> Seq<u8> {
        Seq::new((4 * self.extents.w * self.extents.h) as nat, |k: int| self.image_byte(k))
    }

    /// Byte `4 * (y * w + x) + ch` of the image is channel `ch` of the
    /// pixel at `(x, y)`.
    proof fn lemma_image_byte_at(self, x: int, y: int, ch: int)
        requires
            0 <= x < self.extents.w,
            0 <= y < self.extents.h,
            0 <= ch < 4,
        ensures
            0 <= 4 * (y * self.extents.w + x) + ch < 4 * self.extents.w * self.extents.h,
            self.image_byte(4 * (y * self.extents.w + x) + ch) == {
                let c = self.pixel_rgba(x, y);
                if ch == 0 {
                    c.0
                } else if ch == 1 {
                    c.1
                } else if ch == 2 {
                    c.2
                } else {
                    c.3
                }
            },
    {
        let w = self.extents.w as int;
        let h = self.extents.h as int;
        let k = 4 * (y * w + x) + ch;
        assert(y * w + x < w * h && 0 <= y * w + x && 4 * (y * w + x) + ch < 4 * w * h && 4 * (y
            * w + x) + ch < 4 * self.extents.w * self.extents.h) by (nonlinear_arith)
            requires
                0 <= x < w,
                0 <= y < h,
                0 <= ch < 4,
                w == self.extents.w,
                h == self.extents.h,
        ;
        assert(k / 4 == y * w + x);
        assert(k % 4 == ch);
        vstd::arithmetic::mul::lemma_mul_is_commutative(y, w);
        vstd::arithmetic::div_mod::lemma_mod_multiples_vanish(y, x, w);
        vstd::arithmetic::div_mod::lemma_small_mod(x as nat, w as nat);
        vstd::arithmetic::div_mod::lemma_div_multiples_vanish_fancy(y, x, w);
        assert((y * w + x) % w == x);
        assert((y * w + x) / w == y);
    }

    /// Rasterizes the planet into an RGBA image sized to its bounding
    /// box.  The result is a pure function of the planet's geometry: every
    /// byte equals [`Planet::image_spec`], so repeated rasterizations are
    /// pixel-identical.
    #[verifier::loop_isolation(false)]
    #[verifier::rlimit(60)]
    pub fn as_image(planet: &Planet) -> (r: Image)
        requires
            planet.wf(),
            planet.extents.w <= 0x4000,
            planet.extents.h <= 0x4000,
        ensures
            r.width == planet.extents.w,
            r.height == planet.extents.h,
            r.bytes@ == planet.image_spec(),
    {
        let n: u64 = planet.heights.len() as u64;
        proof {
            assert(n * ANGLE_SCALE <= MAX_SAMPLES * ANGLE_SCALE && 2 * ANGLE_SCALE <= n
                * ANGLE_SCALE) by (nonlinear_arith)
                requires
                    2 <= n <= MAX_SAMPLES,
            ;
            assert((n * ANGLE_SCALE) % 8 == 0) by {
                vstd::arithmetic::div_mod::lemma_mod_multiples_basic(n * 128, 8);
                assert(n * ANGLE_SCALE == (n * 128) * 8) by (nonlinear_arith);
            }
        }
        let turn: u64 = n * ANGLE_SCALE;
        let width: u16 = planet.extents.w as u16;
        let height: u16 = planet.extents.h as u16;
        let ghost w = planet.extents.w as int;
        let ghost h = planet.extents.h as int;
        let mut bytes: Vec<u8> = Vec::new();
        let mut y: u16 = 0;
        while y < height
            invariant
                0 <= y <= height,
                bytes@.len() == 4 * ((y as int) * w),
                forall|k: int| 0 <= k < bytes@.len() ==> bytes@[k] == planet.image_byte(k),
            decreases height - y,
        {
            let mut x: u16 = 0;
            while x < width
                invariant
                    0 <= x <= width,
                    0 <= y < height,
                    bytes@.len() == 4 * ((y as int) * w + x as int),
                    forall|k: int| 0 <= k < bytes@.len() ==> bytes@[k] == planet.image_byte(k),
                decreases width - x,
            {
                let px: i64 = planet.extents.x + (x as i64);
                let py: i64 = planet.extents.y + (y as i64);
                let p = Vec2i { x: px, y: py };
                let d: u64 = common::distance(p, planet.center);
                let (cr, cg, cb, ca): (u8, u8, u8, u8) = if d < planet.radius {
                    (110, 90, 55, 255)
                } else if d > planet.max_radius {
                    (0, 0, 0, 0)
                } else {
                    let angle: u64 = trig::angle_of(px - planet.center.x, py - planet.center.y, turn);
                    let up: u64 = d - planet.radius;
                    if Self::is_inside(planet, d, angle) {
                        if up < 100 {
                            (221, 181, 110, 255)
                        } else if up < 200 {
                            (178, 166, 72, 255)
                        } else if up < 300 {
                            (85, 150, 83, 255)
                        } else if up < 400 {
                            (141, 153, 40, 255)
                        } else if up < 500 {
                            (125, 165, 123, 255)
                        } else if up < 600 {
                            (193, 212, 169, 255)
                        } else if up == 600 {
                            (255, 255, 212, 255)
                        } else {
                            (255, 255, 255, 255)
                        }
                    } else if up < 200 {
                        (13, 148, 138, 255)
                    } else {
                        (0, 0, 0, 0)
                    }
                };
                proof {
                    assert((cr, cg, cb, ca) == planet.pixel_rgba(x as int, y as int));
                    planet.lemma_image_byte_at(x as int, y as int, 0);
                    planet.lemma_image_byte_at(x as int, y as int, 1);
                    planet.lemma_image_byte_at(x as int, y as int, 2);
                    planet.lemma_image_byte_at(x as int, y as int, 3);
                }
                bytes.push(cr);
                bytes.push(cg);
                bytes.push(cb);
                bytes.push(ca);
                x = x + 1;
            }
            proof {
                vstd::arithmetic::mul::lemma_mul_is_distributive_add_other_way(
                    w,
                    y as int + 1,
                    1,
                );
                assert(4 * ((y as int) * w + w) == 4 * ((y as int + 1) * w)) by (nonlinear_arith);
            }
            y = y + 1;
        }
        proof {
            assert(4 * ((height as int) * w) == 4 * w * h) by (nonlinear_arith)
                requires
                    height as int == h,
            ;
            assert(bytes@ =~= planet.image_spec());
        }
        Image { bytes, width, height }
    }
}

/// For every angle there is exactly one sample slot holding it: the slot
/// the indexed query interpolates from is the unique sample within one
/// angular step below the angle, and its partner is its direct successor
/// in the sample sequence, wrapping at the seam.
pub proof fn lemma_unique_slot(angle: int, n: int)
    requires
        2 <= n,
        0 <= angle < n * ANGLE_SCALE,
    ensures
        0 <= angle / (ANGLE_SCALE as int) < n,
        forall|i: int|
            0 <= i < n ==> ((#[trigger] (i * ANGLE_SCALE) <= angle < (i + 1) * ANGLE_SCALE) <==> i
                == angle / (ANGLE_SCALE as int)),
{
    vstd::arithmetic::div_mod::lemma_fundamental_div_mod(angle, ANGLE_SCALE as int);
    vstd::arithmetic::div_mod::lemma_mod_bound(angle, ANGLE_SCALE as int);
}

/// Every surface sample's radial distance from the center lies within
/// half the base radius of the base radius: the perturbation never moves
/// a sample by more than `radius / 2` in either direction.
pub proof fn lemma_sample_heights_bounded(p: Planet)
    requires
        p.wf(),
    ensures
        forall|i: int|
            0 <= i < p.n() ==> p.radius_spec() - p.radius_spec() / 2 <= #[trigger] p.heights@[i]
                <= p.radius_spec() + p.radius_spec() / 2,
{
}

/// With a flat surface — every boundary height equal to the base radius —
/// the interpolated boundary is the base radius at every angle.
pub proof fn lemma_flat_boundary(p: Planet, angle: int)
    requires
        p.wf(),
        forall|i: int| 0 <= i < p.n() ==> #[trigger] p.heights@[i] == p.radius_spec(),
        0 <= angle < p.turn(),
    ensures
        p.boundary_at(angle) == p.radius_spec(),
{
    let lo = angle / (ANGLE_SCALE as int);
    vstd::arithmetic::div_mod::lemma_fundamental_div_mod(angle, ANGLE_SCALE as int);
    vstd::arithmetic::div_mod::lemma_mod_bound(angle, ANGLE_SCALE as int);
    assert(0 <= lo < p.n());
    let fr = angle % (ANGLE_SCALE as int);
    vstd::arithmetic::mul::lemma_mul_basics(fr);
    vstd::arithmetic::div_mod::lemma_div_of0(ANGLE_SCALE as int);
}

/// For a planet with zero noise amplitude, containment reduces exactly to
/// the distance check against the base radius, at every angle.
pub proof fn lemma_flat_containment(p: Planet, distance: int, angle: int)
    requires
        p.wf(),
        forall|i: int| 0 <= i < p.n() ==> #[trigger] p.heights@[i] == p.radius_spec(),
        0 <= angle < p.turn(),
    ensures
        p.contains_polar(distance, angle) <==> distance < p.radius_spec(),
{
    lemma_flat_boundary(p, angle);
}

/// A planet built over an all-zero noise grid is perturbed by nothing:
/// the height read for any angular step is zero, whatever offset the
/// construction drew.
pub proof fn lemma_zero_grid_heights(
    grid: Seq<u8>,
    xo: int,
    yo: int,
    i: int,
    n: int,
    radius: int,
)
    requires
        grid.len() == (NOISE_SIZE as int) * (NOISE_SIZE as int),
        forall|k: int| 0 <= k < grid.len() ==> #[trigger] grid[k] == 0,
        offset_ok(xo),
        offset_ok(yo),
        0 <= i < n,
        2 <= n <= MAX_SAMPLES,
        0 <= radius,
    ensures
        surface_height_spec(grid, xo, yo, i, n, radius) == 0,
{
    let t = n * ANGLE_SCALE;
    let angle = i * ANGLE_SCALE;
    assert(t <= MAX_SAMPLES * ANGLE_SCALE && 2 * ANGLE_SCALE <= t) by (nonlinear_arith)
        requires
            2 <= n <= MAX_SAMPLES,
            t == n * ANGLE_SCALE,
    ;
    assert(t % 8 == 0) by {
        vstd::arithmetic::div_mod::lemma_mod_multiples_basic(n * 128, 8);
        assert(n * ANGLE_SCALE == (n * 128) * 8) by (nonlinear_arith);
    }
    vstd::arithmetic::mul::lemma_mul_strict_inequality(i, n, ANGLE_SCALE as int);
    vstd::arithmetic::mul::lemma_mul_nonnegative(i, ANGLE_SCALE as int);
    trig::lemma_sine_bounds(angle, t);
    trig::lemma_cosine_bounds(angle, t);
    let sx = ORBIT_RADIUS * trig::sine_spec(angle, t);
    let sy = ORBIT_RADIUS * trig::cosine_spec(angle, t);
    assert(-(ORBIT_RADIUS * trig::TRIG_ONE) <= sx <= ORBIT_RADIUS * trig::TRIG_ONE && -(
    ORBIT_RADIUS * trig::TRIG_ONE) <= sy <= ORBIT_RADIUS * trig::TRIG_ONE) by (nonlinear_arith)
        requires
            -trig::TRIG_ONE <= trig::sine_spec(angle, t) <= trig::TRIG_ONE,
            -trig::TRIG_ONE <= trig::cosine_spec(angle, t) <= trig::TRIG_ONE,
            sx == ORBIT_RADIUS * trig::sine_spec(angle, t),
            sy == ORBIT_RADIUS * trig::cosine_spec(angle, t),
    ;
    common::lemma_sdiv_mag(sx, trig::TRIG_ONE as int, ORBIT_RADIUS as int);
    common::lemma_sdiv_mag(sy, trig::TRIG_ONE as int, ORBIT_RADIUS as int);
    let nx = xo + sdiv_spec(sx, trig::TRIG_ONE as int);
    let ny = yo + sdiv_spec(sy, trig::TRIG_ONE as int);
    assert(0 <= ny * (NOISE_SIZE as int) + nx < grid.len());
    assert(grid[ny * (NOISE_SIZE as int) + nx] == 0);
    vstd::arithmetic::mul::lemma_mul_basics(radius);
    vstd::arithmetic::div_mod::lemma_div_of0(NOISE_HEIGHT_DEN as int);
}

/// A planet whose construction read an all-zero noise grid is flat: every
/// boundary height equals the base radius, so by
/// [`lemma_flat_containment`] containment reduces exactly to the distance
/// check against the base radius.
pub proof fn lemma_flat_from_zero_grid(p: Planet, grid: Seq<u8>)
    requires
        p.wf(),
        grid.len() == (NOISE_SIZE as int) * (NOISE_SIZE as int),
        forall|k: int| 0 <= k < grid.len() ==> #[trigger] grid[k] == 0,
        exists|xo: int, yo: int|
            offset_ok(xo) && offset_ok(yo) && forall|i: int|
                0 <= i < p.n() ==> #[trigger] p.heights@[i] == p.radius_spec()
                    + surface_height_spec(grid, xo, yo, i, p.n(), p.radius_spec()),
    ensures
        forall|i: int| 0 <= i < p.n() ==> #[trigger] p.heights@[i] == p.radius_spec(),
{
    let (xo, yo) = choose|xo: int, yo: int|
        offset_ok(xo) && offset_ok(yo) && forall|i: int|
            0 <= i < p.n() ==> #[trigger] p.heights@[i] == p.radius_spec() + surface_height_spec(
                grid,
                xo,
                yo,
                i,
                p.n(),
                p.radius_spec(),
            );
    assert forall|i: int| 0 <= i < p.n() implies #[trigger] p.heights@[i]
        == p.radius_spec() by {
        lemma_zero_grid_heights(grid, xo, yo, i, p.n(), p.radius_spec());
    }
}

/// Rasterizing a planet twice yields pixel-identical output: the image is
/// a pure function of the planet alone.
pub proof fn lemma_raster_deterministic(p: Planet, first: Seq<u8>, second: Seq<u8>)
    requires
        first == p.image_spec(),
        second == p.image_spec(),
    ensures
        first == second,
{
}

/// Relies on `rand::Rng::gen_range` over the half-open integer range
/// `lo..hi`: it panics only when the range is empty, and returns a value
/// of the range.  Nothing else is assumed of the value; every caller's
/// contract holds for every outcome.
#[verifier::external_body]
fn random_in_range(lo: u64, hi: u64) -> (r: u64)
    requires
        lo < hi,
    ensures
        lo <= r < hi,
{
    rand::Rng::gen_range(&mut rand::thread_rng(), lo..hi)
}

} // verus!
