//! The camera: a pan/zoom transform between screen space and world space,
//! with an optional followed pose.
//!
//! A zoom factor is an exact rational `num / den`; the viewport extent per
//! axis is `2 / zoom`, so the screen-to-world mapping multiplies before it
//! divides and loses less than one world unit per conversion.  When a
//! followed target is set, every update overwrites target and rotation
//! from it; any manual pan or zoom input clears the followed reference.

use vstd::prelude::*;

use crate::common::{self, Vec2i, RectI, sdiv_spec, in_coord_range};

verus! {

/// Largest accepted zoom numerator.
pub const ZOOM_NUM_LIMIT: u64 = 0x1_0000;

/// Largest accepted zoom denominator.
pub const ZOOM_DEN_LIMIT: u64 = 0x1000_0000;

/// Largest accepted screen dimension, in pixels.
pub const SCREEN_LIMIT: u64 = 0x1_0000;

/// Largest screen-space coordinate magnitude the mapping accepts.
pub const SCREEN_COORD_LIMIT: i64 = 0x10_0000;

/// An exact rational zoom factor `num / den`.
#[derive(Clone, Copy, Debug, PartialEq, Eq, Structural)]
pub struct Zoom {
    pub num: u64,
    pub den: u64,
}

/// Whether a zoom factor is positive and within the overflow-free range.
pub open spec fn zoom_ok(z: Zoom) -> bool {
    1 <= z.num <= ZOOM_NUM_LIMIT && 1 <= z.den <= ZOOM_DEN_LIMIT
}

/// The camera state: world-space focus point, rotation in angle units,
/// independent per-axis zoom, and the optionally followed pose.
#[derive(Clone, Copy, Debug)]
pub struct Camera {
    pub target: Vec2i,
    pub rotation: u64,
    pub zoom_x: Zoom,
    pub zoom_y: Zoom,
    pub followed_pos: Option<Vec2i>,
    pub followed_rot: Option<u64>,
}

/// The key states a camera-controls tick reads: four pan directions and
/// the two zoom directions.
#[derive(Clone, Copy, Debug)]
pub struct CameraKeys {
    pub pan_up: bool,
    pub pan_down: bool,
    pub pan_left: bool,
    pub pan_right: bool,
    pub zoom_in: bool,
    pub zoom_out: bool,
}

impl CameraKeys {
    /// Whether any manual control is pressed.
    pub open spec fn any(self) -> bool {
        self.pan_up || self.pan_down || self.pan_left || self.pan_right || self.zoom_in
            || self.zoom_out
    }
}

impl Camera {
    /// Well-formedness: both zoom factors positive and bounded, the
    /// target and any followed position within the coordinate range.
    pub open spec fn wf(self) -> bool {
        &&& zoom_ok(self.zoom_x)
        &&& zoom_ok(self.zoom_y)
        &&& common::point_in_range(self.target)
        &&& self.followed_pos matches Some(p) ==> common::point_in_range(p)
    }

    /// A fresh camera looking at the origin: the zoom starts at
    /// `1 / screen_width` horizontally and, scaled by the aspect ratio,
    /// `1 / screen_height` vertically.
    pub fn new(screen_width: u64, screen_height: u64) -> (r: Camera)
        requires
            1 <= screen_width <= SCREEN_LIMIT,
            1 <= screen_height <= SCREEN_LIMIT,
        ensures
            r.wf(),
            r.target == (Vec2i { x: 0, y: 0 }),
            r.rotation == 0,
            r.zoom_x == (Zoom { num: 1, den: screen_width }),
            r.zoom_y == (Zoom { num: 1, den: screen_height }),
            r.followed_pos is None,
            r.followed_rot is None,
    {
        Camera {
            target: Vec2i { x: 0, y: 0 },
            rotation: 0,
            zoom_x: Zoom { num: 1, den: screen_width },
            zoom_y: Zoom { num: 1, den: screen_height },
            followed_pos: None,
            followed_rot: None,
        }
    }

    /// One tick: the followed pose, where set, overwrites target and
    /// rotation; position and rotation are tracked independently.
    pub fn update(&mut self)
        requires
            old(self).wf(),
        ensures
            final(self).wf(),
            final(self).target == if old(self).followed_pos is Some {
                old(self).followed_pos->Some_0
            } else {
                old(self).target
            },
            final(self).rotation == if old(self).followed_rot is Some {
                old(self).followed_rot->Some_0
            } else {
                old(self).rotation
            },
            final(self).zoom_x == old(self).zoom_x,
            final(self).zoom_y == old(self).zoom_y,
            final(self).followed_pos == old(self).followed_pos,
            final(self).followed_rot == old(self).followed_rot,
    {
        if let Some(target) = self.followed_pos {
            self.target = target;
        }
        if let Some(rot) = self.followed_rot {
            self.rotation = rot;
        }
    }

    /// Clears both followed references.
    pub fn unfollow(&mut self)
        ensures
            *final(self) == (Camera {
                followed_pos: None,
                followed_rot: None,
                ..*old(self)
            }),
    {
        self.followed_pos = None;
        self.followed_rot = None;
    }

    /// Sets the followed position; the followed rotation is left as it
    /// was.
    pub fn set_follow(&mut self, position: Option<Vec2i>, _rotation: Option<u64>)
        ensures
            *final(self) == (Camera { followed_pos: position, ..*old(self) }),
    {
        self.followed_pos = position;
    }

    /// The world-space viewport extent per axis: `2 / zoom`, rounded
    /// down.
    pub fn viewport_size(&self) -> (r: (u64, u64))
        requires
            self.wf(),
        ensures
            r.0 == 2 * self.zoom_x.den / (self.zoom_x.num as int),
            r.1 == 2 * self.zoom_y.den / (self.zoom_y.num as int),
    {
        (2 * self.zoom_x.den / self.zoom_x.num, 2 * self.zoom_y.den / self.zoom_y.num)
    }

    /// The world-space rectangle the camera shows: centered on the
    /// target, sized by the viewport extent.
    pub fn viewport_rect(&self) -> (r: RectI)
        requires
            self.wf(),
        ensures
            r.x == self.target.x - ((2 * self.zoom_x.den / (self.zoom_x.num as int)) as i64) / 2,
            r.y == self.target.y - ((2 * self.zoom_y.den / (self.zoom_y.num as int)) as i64) / 2,
            r.w == (2 * self.zoom_x.den / (self.zoom_x.num as int)) as i64,
            r.h == (2 * self.zoom_y.den / (self.zoom_y.num as int)) as i64,
    {
        let (viewport_width, viewport_height) = self.viewport_size();
        RectI {
            x: self.target.x - (viewport_width as i64) / 2,
            y: self.target.y - (viewport_height as i64) / 2,
            w: viewport_width as i64,
            h: viewport_height as i64,
        }
    }

    /// Where a screen x coordinate lands in the world: the offset from
    /// the screen center, remapped from the half-screen extent to the
    /// half-viewport extent, translated by the target.
    pub open spec fn screen_to_world_axis(px: int, half_screen: int, z: Zoom, t: int) -> int {
        t + sdiv_spec((px - half_screen) * z.den, z.num * half_screen)
    }

    /// The inverse mapping for one axis: the world offset from the
    /// target, scaled to pixels, translated to the screen center.
    pub open spec fn world_to_screen_axis(wx: int, half_screen: int, z: Zoom, t: int) -> int {
        half_screen + sdiv_spec(((wx - t) * z.num) * half_screen, z.den as int)
    }

    /// Maps a screen-space point to world space.
    pub fn screen_to_world(&self, point: Vec2i, screen_width: u64, screen_height: u64) -> (r: Vec2i)
        requires
            self.wf(),
            2 <= screen_width <= SCREEN_LIMIT,
            2 <= screen_height <= SCREEN_LIMIT,
            -SCREEN_COORD_LIMIT <= point.x <= SCREEN_COORD_LIMIT,
            -SCREEN_COORD_LIMIT <= point.y <= SCREEN_COORD_LIMIT,
        ensures
            r.x == Self::screen_to_world_axis(
                point.x as int,
                (screen_width / 2) as int,
                self.zoom_x,
                self.target.x as int,
            ),
            r.y == Self::screen_to_world_axis(
                point.y as int,
                (screen_height / 2) as int,
                self.zoom_y,
                self.target.y as int,
            ),
    {
        let hw: u64 = screen_width / 2;
        let hh: u64 = screen_height / 2;
        let rx: i64 = Self::axis_to_world(point.x, hw, self.zoom_x, self.target.x);
        let ry: i64 = Self::axis_to_world(point.y, hh, self.zoom_y, self.target.y);
        Vec2i { x: rx, y: ry }
    }

    /// One axis of the screen-to-world mapping.
    fn axis_to_world(px: i64, half_screen: u64, z: Zoom, t: i64) -> (r: i64)
        requires
            zoom_ok(z),
            1 <= half_screen <= SCREEN_LIMIT / 2,
            -SCREEN_COORD_LIMIT <= px <= SCREEN_COORD_LIMIT,
            in_coord_range(t),
        ensures
            r == Self::screen_to_world_axis(px as int, half_screen as int, z, t as int),
    {
        let off: i64 = px - (half_screen as i64);
        proof {
            assert(-(0x20_0000int * 0x1000_0000) <= (off as int) * (z.den as int) <= 0x20_0000int
                * 0x1000_0000) by (nonlinear_arith)
                requires
                    -0x20_0000 <= off <= 0x20_0000,
                    1 <= z.den <= ZOOM_DEN_LIMIT,
            ;
            assert(1 <= (z.num as int) * (half_screen as int) <= 0x1_0000int * 0x8000) by (
            nonlinear_arith)
                requires
                    1 <= z.num <= ZOOM_NUM_LIMIT,
                    1 <= half_screen <= SCREEN_LIMIT / 2,
            ;
            common::lemma_sdiv_mag(
                (off as int) * (z.den as int),
                (z.num as int) * (half_screen as int),
                0x20_0000int * 0x1000_0000,
            );
        }
        let scaled: i64 = off * (z.den as i64);
        let div: u64 = z.num * half_screen;
        t + common::sdiv(scaled, div)
    }

    /// Maps a world-space point to screen space: the forward transform
    /// that [`Camera::screen_to_world`] inverts.
    pub fn world_to_screen(&self, point: Vec2i, screen_width: u64, screen_height: u64) -> (r: Vec2i)
        requires
            self.wf(),
            2 <= screen_width <= SCREEN_LIMIT,
            2 <= screen_height <= SCREEN_LIMIT,
            common::point_in_range(point),
        ensures
            r.x == Self::world_to_screen_axis(
                point.x as int,
                (screen_width / 2) as int,
                self.zoom_x,
                self.target.x as int,
            ),
            r.y == Self::world_to_screen_axis(
                point.y as int,
                (screen_height / 2) as int,
                self.zoom_y,
                self.target.y as int,
            ),
    {
        let hw: u64 = screen_width / 2;
        let hh: u64 = screen_height / 2;
        let rx: i64 = Self::axis_to_screen(point.x, hw, self.zoom_x, self.target.x);
        let ry: i64 = Self::axis_to_screen(point.y, hh, self.zoom_y, self.target.y);
        Vec2i { x: rx, y: ry }
    }

    /// One axis of the world-to-screen mapping.
    fn axis_to_screen(wx: i64, half_screen: u64, z: Zoom, t: i64) -> (r: i64)
        requires
            zoom_ok(z),
            1 <= half_screen <= SCREEN_LIMIT / 2,
            in_coord_range(wx),
            in_coord_range(t),
        ensures
            r == Self::world_to_screen_axis(wx as int, half_screen as int, z, t as int),
    {
        let off: i64 = wx - t;
        proof {
            assert(-(0x8000_0000int * 0x1_0000) <= (off as int) * (z.num as int) <= 0x8000_0000int
                * 0x1_0000) by (nonlinear_arith)
                requires
                    -0x8000_0000 <= off <= 0x8000_0000,
                    1 <= z.num <= ZOOM_NUM_LIMIT,
            ;
            assert(-(0x8000_0000int * 0x1_0000 * 0x8000) <= ((off as int) * (z.num as int)) * (
            half_screen as int) <= 0x8000_0000int * 0x1_0000 * 0x8000) by (nonlinear_arith)
                requires
                    -(0x8000_0000int * 0x1_0000) <= (off as int) * (z.num as int)
                        <= 0x8000_0000int * 0x1_0000,
                    1 <= half_screen <= SCREEN_LIMIT / 2,
            ;
            assert(0x8000_0000int * 0x1_0000 * 0x8000 <= (0x8000_0000int * 0x1_0000 * 0x8000) * (
            z.den as int)) by (nonlinear_arith)
                requires
                    1 <= z.den,
            ;
            common::lemma_sdiv_mag(
                ((off as int) * (z.num as int)) * (half_screen as int),
                z.den as int,
                0x8000_0000int * 0x1_0000 * 0x8000,
            );
        }
        let scaled: i64 = (off * (z.num as i64)) * (half_screen as i64);
        (half_screen as i64) + common::sdiv(scaled, z.den)
    }
}

/// Mapping a world point to the screen and back lands within one coarse
/// world pixel of where it started: the round-trip error, scaled by
/// `num * half_screen`, is smaller than `den + num * half_screen`.  In
/// particular, whenever one screen pixel covers at most one world unit
/// (`den <= num * half_screen`), the round trip moves the point by at
/// most one world unit.
pub proof fn lemma_round_trip_axis(wx: int, half_screen: int, z: Zoom, t: int)
    requires
        zoom_ok(z),
        1 <= half_screen <= SCREEN_LIMIT / 2,
    ensures
        ({
            let back = Camera::screen_to_world_axis(
                Camera::world_to_screen_axis(wx, half_screen, z, t),
                half_screen,
                z,
                t,
            );
            let scale = z.num * half_screen;
            &&& -((z.den + scale) as int) < (back - wx) * scale < (z.den + scale) as int
            &&& z.den <= scale ==> -1 <= back - wx <= 1
        }),
{
    let q = wx - t;
    let a = (z.num as int) * (half_screen as int);
    let b = z.den as int;
    assert(1 <= a) by (nonlinear_arith)
        requires
            1 <= z.num,
            1 <= half_screen,
            a == (z.num as int) * (half_screen as int),
    ;
    let u = sdiv_spec(q * z.num * half_screen, b);
    common::lemma_sdiv_close(q * z.num * half_screen, b);
    let v = sdiv_spec(u * b, a);
    common::lemma_sdiv_close(u * b, a);
    let s = Camera::world_to_screen_axis(wx, half_screen, z, t);
    let back = Camera::screen_to_world_axis(s, half_screen, z, t);
    assert(s - half_screen == u);
    assert((s - half_screen) * z.den == u * b) by (nonlinear_arith)
        requires
            s - half_screen == u,
            b == z.den,
    ;
    assert(back == t + v);
    let r1 = q * z.num * half_screen - u * b;
    let r2 = u * b - v * a;
    assert(-b < r1 < b && -a < r2 < a);
    assert(q * z.num * half_screen == q * a) by (nonlinear_arith)
        requires
            a == (z.num as int) * (half_screen as int),
    ;
    assert((back - wx) * a == -(r1 + r2)) by (nonlinear_arith)
        requires
            back == t + v,
            q == wx - t,
            q * a - u * b == r1,
            u * b - v * a == r2,
    ;
    assert(-(b + a) < (back - wx) * a < b + a);
    if b <= a {
        assert(-1 <= back - wx <= 1) by (nonlinear_arith)
            requires
                -(b + a) < (back - wx) * a < b + a,
                b <= a,
                1 <= a,
        ;
    }
}

/// Manual camera controls for one tick: four pan directions move the
/// target by a hundredth of the horizontal viewport, the two zoom keys
/// scale both zoom factors by two percent, and any control clears the
/// followed references.  A pan that would leave the coordinate range, or
/// a zoom that would leave the accepted zoom range, leaves its value
/// unchanged.
pub open spec fn controls_spec(cam: Camera, keys: CameraKeys) -> Camera {
    let step = (cam.zoom_x.den as int) / (100 * cam.zoom_x.num as int);
    let c0 = if keys.any() {
        Camera { followed_pos: None, followed_rot: None, ..cam }
    } else {
        cam
    };
    let c1 = if keys.pan_up && in_coord_range((c0.target.y - step) as i64) {
        Camera { target: Vec2i { x: c0.target.x, y: (c0.target.y - step) as i64 }, ..c0 }
    } else {
        c0
    };
    let c2 = if keys.pan_down && in_coord_range((c1.target.y + step) as i64) {
        Camera { target: Vec2i { x: c1.target.x, y: (c1.target.y + step) as i64 }, ..c1 }
    } else {
        c1
    };
    let c3 = if keys.pan_left && in_coord_range((c2.target.x - step) as i64) {
        Camera { target: Vec2i { x: (c2.target.x - step) as i64, y: c2.target.y }, ..c2 }
    } else {
        c2
    };
    let c4 = if keys.pan_right && in_coord_range((c3.target.x + step) as i64) {
        Camera { target: Vec2i { x: (c3.target.x + step) as i64, y: c3.target.y }, ..c3 }
    } else {
        c3
    };
    let c5 = if keys.zoom_in && c4.zoom_x.num * 49 <= ZOOM_NUM_LIMIT && c4.zoom_x.den * 50
        <= ZOOM_DEN_LIMIT && c4.zoom_y.num * 49 <= ZOOM_NUM_LIMIT && c4.zoom_y.den * 50
        <= ZOOM_DEN_LIMIT {
        Camera {
            zoom_x: Zoom { num: (c4.zoom_x.num * 49) as u64, den: (c4.zoom_x.den * 50) as u64 },
            zoom_y: Zoom { num: (c4.zoom_y.num * 49) as u64, den: (c4.zoom_y.den * 50) as u64 },
            ..c4
        }
    } else {
        c4
    };
    if keys.zoom_out && c5.zoom_x.num * 50 <= ZOOM_NUM_LIMIT && c5.zoom_x.den * 49
        <= ZOOM_DEN_LIMIT && c5.zoom_y.num * 50 <= ZOOM_NUM_LIMIT && c5.zoom_y.den * 49
        <= ZOOM_DEN_LIMIT {
        Camera {
            zoom_x: Zoom { num: (c5.zoom_x.num * 50) as u64, den: (c5.zoom_x.den * 49) as u64 },
            zoom_y: Zoom { num: (c5.zoom_y.num * 50) as u64, den: (c5.zoom_y.den * 49) as u64 },
            ..c5
        }
    } else {
        c5
    }
}

/// Applies one tick of manual camera controls.  Manual control and
/// follow mode are mutually exclusive: any pressed control unfollows
/// first.
pub fn top_down_camera_controls(camera: &mut Camera, keys: &CameraKeys)
    requires
        old(camera).wf(),
    ensures
        *final(camera) == controls_spec(*old(camera), *keys),
        final(camera).wf(),
        keys.any() ==> final(camera).followed_pos is None && final(camera).followed_rot is None,
        !keys.any() ==> *final(camera) == *old(camera),
{
    let step_den: u64 = 100 * camera.zoom_x.num;
    let step: i64 = (camera.zoom_x.den / step_den) as i64;
    proof {
        vstd::arithmetic::div_mod::lemma_div_is_ordered(
            0,
            camera.zoom_x.den as int,
            step_den as int,
        );
        vstd::arithmetic::div_mod::lemma_div_nonincreasing(
            camera.zoom_x.den as int,
            step_den as int,
        );
        assert((camera.zoom_x.den as int) / (step_den as int) == (camera.zoom_x.den as int) / (100
            * camera.zoom_x.num as int));
    }
    if keys.pan_up || keys.pan_down || keys.pan_left || keys.pan_right || keys.zoom_in
        || keys.zoom_out {
        camera.followed_pos = None;
        camera.followed_rot = None;
    }
    if keys.pan_up {
        let moved: i64 = camera.target.y - step;
        if -common::COORD_LIMIT <= moved && moved <= common::COORD_LIMIT {
            camera.target.y = moved;
        }
    }
    if keys.pan_down {
        let moved: i64 = camera.target.y + step;
        if -common::COORD_LIMIT <= moved && moved <= common::COORD_LIMIT {
            camera.target.y = moved;
        }
    }
    if keys.pan_left {
        let moved: i64 = camera.target.x - step;
        if -common::COORD_LIMIT <= moved && moved <= common::COORD_LIMIT {
            camera.target.x = moved;
        }
    }
    if keys.pan_right {
        let moved: i64 = camera.target.x + step;
        if -common::COORD_LIMIT <= moved && moved <= common::COORD_LIMIT {
            camera.target.x = moved;
        }
    }
    if keys.zoom_in {
        if camera.zoom_x.num <= ZOOM_NUM_LIMIT / 49 && camera.zoom_x.den <= ZOOM_DEN_LIMIT / 50
            && camera.zoom_y.num <= ZOOM_NUM_LIMIT / 49 && camera.zoom_y.den <= ZOOM_DEN_LIMIT
            / 50 && camera.zoom_x.num * 49 <= ZOOM_NUM_LIMIT && camera.zoom_x.den * 50
            <= ZOOM_DEN_LIMIT && camera.zoom_y.num * 49 <= ZOOM_NUM_LIMIT && camera.zoom_y.den * 50
            <= ZOOM_DEN_LIMIT {
            camera.zoom_x = Zoom { num: camera.zoom_x.num * 49, den: camera.zoom_x.den * 50 };
            camera.zoom_y = Zoom { num: camera.zoom_y.num * 49, den: camera.zoom_y.den * 50 };
        }
    }
    if keys.zoom_out {
        if camera.zoom_x.num <= ZOOM_NUM_LIMIT / 50 && camera.zoom_x.den <= ZOOM_DEN_LIMIT / 49
            && camera.zoom_y.num <= ZOOM_NUM_LIMIT / 50 && camera.zoom_y.den <= ZOOM_DEN_LIMIT
            / 49 && camera.zoom_x.num * 50 <= ZOOM_NUM_LIMIT && camera.zoom_x.den * 49
            <= ZOOM_DEN_LIMIT && camera.zoom_y.num * 50 <= ZOOM_NUM_LIMIT && camera.zoom_y.den * 49
            <= ZOOM_DEN_LIMIT {
            camera.zoom_x = Zoom { num: camera.zoom_x.num * 50, den: camera.zoom_x.den * 49 };
            camera.zoom_y = Zoom { num: camera.zoom_y.num * 50, den: camera.zoom_y.den * 49 };
        }
    }
}

} // verus!
