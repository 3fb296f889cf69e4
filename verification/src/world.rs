//! The orchestrator: owns the noise field, the planet and the camera, and
//! turns polled input into state updates.
//!
//! Ownership is explicit: the noise field and the planet are memoized
//! fields computed on first setup, and regeneration swaps in a brand-new
//! planet built from a fresh random offset.  Input polling and drawing
//! live outside the library; they hand this module plain flag structs and
//! read its state back.

use vstd::prelude::*;

use crate::camera::{self, Camera, CameraKeys};
use crate::common::Vec2i;
use crate::noise::Noise;
use crate::planet::{self, Planet};

verus! {

/// Side length of the square noise grid.
pub const NOISE_SIZE: u16 = 1000;

/// Base radius of the generated planet.
pub const PLANET_RADIUS: u64 = 1500;

/// Surface samples per planet: two per degree of the full turn, plus one.
pub const SURFACE_SAMPLES: u64 = 721;

/// One frame's polled input, as plain flags.
#[derive(Clone, Copy, Debug)]
pub struct InputState {
    /// The planet-regeneration button was pressed this frame.
    pub regenerate: bool,
    /// The camera-controls modifier is held.
    pub camera_modifier: bool,
    /// The manual camera keys.
    pub keys: CameraKeys,
}

/// The world: one optional planet, one optional noise field, one camera.
pub struct World {
    pub planet: Option<Planet>,
    pub noise: Option<Noise>,
    pub main_camera: Camera,
}

/// Whether `p` carries the boundary heights that building over `grid`
/// yields for some valid noise offset: the regeneration contract.
pub open spec fn planet_from_grid(p: Planet, grid: Seq<u8>) -> bool {
    exists|xo: int, yo: int|
        planet::offset_ok(xo) && planet::offset_ok(yo) && forall|i: int|
            0 <= i < p.n() ==> #[trigger] p.heights@[i] == PLANET_RADIUS
                + planet::surface_height_spec(grid, xo, yo, i, p.n(), PLANET_RADIUS as int)
}

impl World {
    /// Well-formedness of every present component.
    pub open spec fn wf(self) -> bool {
        &&& self.planet matches Some(p) ==> p.wf() && p.n() == SURFACE_SAMPLES
            && p.radius_spec() == PLANET_RADIUS && p.center == (Vec2i { x: 0, y: 0 })
        &&& self.noise matches Some(nz) ==> nz.wf()
        &&& self.main_camera.wf()
    }

    /// An empty world: no planet or noise yet, a fresh camera.
    pub fn new(screen_width: u64, screen_height: u64) -> (r: World)
        requires
            1 <= screen_width <= camera::SCREEN_LIMIT,
            1 <= screen_height <= camera::SCREEN_LIMIT,
        ensures
            r.wf(),
            r.planet is None,
            r.noise is None,
            r.main_camera.target == (Vec2i { x: 0, y: 0 }),
            r.main_camera.rotation == 0,
            r.main_camera.zoom_x == (camera::Zoom { num: 1, den: screen_width }),
            r.main_camera.zoom_y == (camera::Zoom { num: 1, den: screen_height }),
            r.main_camera.followed_pos is None,
            r.main_camera.followed_rot is None,
    {
        World {
            planet: None,
            noise: None,
            main_camera: Camera::new(screen_width, screen_height),
        }
    }

    /// First-time setup: installs the noise grid if none is present yet,
    /// and builds the planet from it if none is present yet.  Both are
    /// computed once and reused thereafter: a second setup changes
    /// nothing.
    pub fn setup(&mut self, noise_samples: Vec<u8>)
        requires
            old(self).wf(),
            noise_samples@.len() == (NOISE_SIZE as int) * (NOISE_SIZE as int),
        ensures
            final(self).wf(),
            final(self).noise is Some,
            final(self).planet is Some,
            final(self).main_camera == old(self).main_camera,
            old(self).noise is Some ==> final(self).noise == old(self).noise,
            old(self).noise is None ==> final(self).noise->Some_0.grid() == noise_samples@,
            old(self).planet is Some ==> final(self).planet == old(self).planet,
            old(self).planet is None ==> planet_from_grid(
                final(self).planet->Some_0,
                final(self).noise->Some_0.grid(),
            ),
    {
        if self.noise.is_none() {
            self.noise = Some(Noise::new(noise_samples));
        }
        if self.planet.is_none() {
            if let Some(nz) = &self.noise {
                let planet = Planet::new(Vec2i { x: 0, y: 0 }, PLANET_RADIUS, nz, SURFACE_SAMPLES);
                self.planet = Some(planet);
            }
        }
    }

    /// One frame of input: the regenerate button replaces the planet
    /// with a brand-new one built from a fresh random offset; the camera
    /// modifier routes the manual keys to the camera controls.
    pub fn input(&mut self, input: &InputState)
        requires
            old(self).wf(),
        ensures
            final(self).wf(),
            final(self).noise == old(self).noise,
            input.regenerate && old(self).planet is Some && old(self).noise is Some
                ==> final(self).planet is Some && planet_from_grid(
                final(self).planet->Some_0,
                old(self).noise->Some_0.grid(),
            ),
            !(input.regenerate && old(self).planet is Some && old(self).noise is Some)
                ==> final(self).planet == old(self).planet,
            input.camera_modifier ==> final(self).main_camera == camera::controls_spec(
                old(self).main_camera,
                input.keys,
            ),
            !input.camera_modifier ==> final(self).main_camera == old(self).main_camera,
    {
        if input.regenerate && self.planet.is_some() {
            if let Some(nz) = &self.noise {
                let planet = Planet::new(Vec2i { x: 0, y: 0 }, PLANET_RADIUS, nz, SURFACE_SAMPLES);
                self.planet = Some(planet);
            }
        }
        if input.camera_modifier {
            camera::top_down_camera_controls(&mut self.main_camera, &input.keys);
        }
    }

    /// One frame of state update: the camera follows its target.
    pub fn update(&mut self)
        requires
            old(self).wf(),
        ensures
            final(self).wf(),
            final(self).planet == old(self).planet,
            final(self).noise == old(self).noise,
            final(self).main_camera.target == if old(self).main_camera.followed_pos is Some {
                old(self).main_camera.followed_pos->Some_0
            } else {
                old(self).main_camera.target
            },
            final(self).main_camera.rotation == if old(self).main_camera.followed_rot is Some {
                old(self).main_camera.followed_rot->Some_0
            } else {
                old(self).main_camera.rotation
            },
            final(self).main_camera.zoom_x == old(self).main_camera.zoom_x,
            final(self).main_camera.zoom_y == old(self).main_camera.zoom_y,
    {
        self.main_camera.update();
    }
}

} // verus!
