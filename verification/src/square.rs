//! A rotatable square marker: center, side length and facing.
//!
//! The geometry — the four corners around the origin and their rotation
//! by the facing — is computed here; drawing the outline is the
//! renderer's business.

use vstd::prelude::*;

use crate::common::{self, Vec2i, in_coord_range, point_in_range};
use crate::trig;

verus! {

/// Largest accepted side length.
pub const MAX_SQUARE_SIZE: i64 = 0x1000;

/// Default side length of a fresh square.
pub const DEFAULT_SQUARE_SIZE: i64 = 25;

/// A square marker: center, side length, facing rotation in angle units,
/// and the angle resolution those units are measured in.
pub struct Square {
    pub center: Vec2i,
    pub size: i64,
    pub rotation: u64,
    pub turn: u64,
}

impl Square {
    /// Well-formedness: center in range, a positive bounded side, and a
    /// valid rotation of the chosen resolution.
    pub open spec fn wf(self) -> bool {
        &&& point_in_range(self.center)
        &&& 1 <= self.size <= MAX_SQUARE_SIZE
        &&& trig::turn_ok(self.turn)
        &&& self.rotation < self.turn
    }

    /// A square of the default size at `center`, facing angle zero.
    pub fn new(center: Vec2i, turn: u64) -> (r: Square)
        requires
            point_in_range(center),
            trig::turn_ok(turn),
        ensures
            r.wf(),
            r.center == center,
            r.size == DEFAULT_SQUARE_SIZE,
            r.rotation == 0,
            r.turn == turn,
    {
        Square { center, size: DEFAULT_SQUARE_SIZE, rotation: 0, turn }
    }

    /// The same square facing `rotation`.
    pub fn rotated(self, rotation: u64) -> (r: Square)
        requires
            rotation < self.turn,
        ensures
            r == (Square { rotation, ..self }),
    {
        Square { center: self.center, size: self.size, rotation, turn: self.turn }
    }

    /// The same square with side length `size`.
    pub fn sized(self, size: i64) -> (r: Square)
        requires
            1 <= size <= MAX_SQUARE_SIZE,
        ensures
            r == (Square { size, ..self }),
    {
        Square { center: self.center, size, rotation: self.rotation, turn: self.turn }
    }

    /// The four unrotated corners around the origin, in drawing order:
    /// half the side length out along each axis.
    pub fn corners(size: i64) -> (r: [Vec2i; 4])
        requires
            1 <= size <= MAX_SQUARE_SIZE,
        ensures
            r@[0] == (Vec2i { x: (-(size / 2)) as i64, y: (-(size / 2)) as i64 }),
            r@[1] == (Vec2i { x: (size / 2) as i64, y: (-(size / 2)) as i64 }),
            r@[2] == (Vec2i { x: (size / 2) as i64, y: (size / 2) as i64 }),
            r@[3] == (Vec2i { x: (-(size / 2)) as i64, y: (size / 2) as i64 }),
    {
        let half_size: i64 = size / 2;
        [
            Vec2i { x: -half_size, y: -half_size },
            Vec2i { x: half_size, y: -half_size },
            Vec2i { x: half_size, y: half_size },
            Vec2i { x: -half_size, y: half_size },
        ]
    }

    /// The four corners rotated by `rotation` angle units.
    pub fn rotate(p: [Vec2i; 4], rotation: u64, turn: u64) -> (r: [Vec2i; 4])
        requires
            trig::turn_ok(turn),
            rotation < turn,
            forall|i: int| 0 <= i < 4 ==> point_in_range(#[trigger] p@[i]),
        ensures
            forall|i: int|
                0 <= i < 4 ==> (#[trigger] r@[i]).x == common::rotate_x_spec(
                    p@[i],
                    rotation as int,
                    turn as int,
                ) && r@[i].y == common::rotate_y_spec(p@[i], rotation as int, turn as int),
            forall|i: int|
                0 <= i < 4 ==> -2 * common::COORD_LIMIT <= (#[trigger] r@[i]).x <= 2
                    * common::COORD_LIMIT && -2 * common::COORD_LIMIT <= r@[i].y <= 2
                    * common::COORD_LIMIT,
    {
        [
            common::rotate(p[0], rotation, turn),
            common::rotate(p[1], rotation, turn),
            common::rotate(p[2], rotation, turn),
            common::rotate(p[3], rotation, turn),
        ]
    }
}

} // verus!
