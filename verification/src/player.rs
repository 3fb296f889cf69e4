//! The player: a world-space position and a facing derived from it.
//!
//! The facing is not free state: each tick recomputes it from the angle
//! between the player's position and the planet's center, offset by a
//! half turn, so the player stays upright relative to a circular planet.
//! The planet center is an explicit input; nothing assumes it is the
//! world origin.

use vstd::prelude::*;

use crate::common::{self, Vec2i, point_in_range};
use crate::trig;

verus! {

/// A player: position, facing rotation in angle units, and the angle
/// resolution (units per full turn) those units are measured in.
pub struct Player {
    pub pos: Vec2i,
    pub rotation: u64,
    pub turn: u64,
}

impl Player {
    /// Well-formedness: the position is in coordinate range and the
    /// rotation is a valid angle of the chosen resolution.
    pub open spec fn wf(self) -> bool {
        &&& point_in_range(self.pos)
        &&& trig::turn_ok(self.turn)
        &&& self.rotation < self.turn
    }

    /// A player at `pos`, facing angle zero, with `turn` angle units per
    /// full turn.
    pub fn new(pos: Vec2i, turn: u64) -> (r: Player)
        requires
            point_in_range(pos),
            trig::turn_ok(turn),
        ensures
            r.wf(),
            r.pos == pos,
            r.rotation == 0,
            r.turn == turn,
    {
        Player { pos, rotation: 0, turn }
    }

    /// One tick: recomputes the facing as the angle from `center` toward
    /// the player, offset by a half turn — the facing is a function of
    /// the position, not free state.
    pub fn update(&mut self, center: Vec2i)
        requires
            old(self).wf(),
            point_in_range(center),
        ensures
            final(self).wf(),
            final(self).pos == old(self).pos,
            final(self).turn == old(self).turn,
            final(self).rotation == (trig::angle_of_spec(
                old(self).pos.x - center.x,
                old(self).pos.y - center.y,
                old(self).turn as int,
            ) + old(self).turn / 2) % (old(self).turn as int),
    {
        let outward: u64 = trig::angle_of(self.pos.x - center.x, self.pos.y - center.y, self.turn);
        self.rotation = (outward + self.turn / 2) % self.turn;
        proof {
            vstd::arithmetic::div_mod::lemma_mod_bound(
                (outward + self.turn / 2) as int,
                self.turn as int,
            );
        }
    }

    /// Applies a movement: the vector is rotated by the current facing
    /// and added to the position, so movement is relative to the
    /// player's orientation, not the world axes.
    pub fn apply_speed(&mut self, speed: Vec2i)
        requires
            old(self).wf(),
            point_in_range(speed),
            common::in_coord_range(
                (old(self).pos.x + common::rotate_x_spec(
                    speed,
                    old(self).rotation as int,
                    old(self).turn as int,
                )) as i64,
            ),
            common::in_coord_range(
                (old(self).pos.y + common::rotate_y_spec(
                    speed,
                    old(self).rotation as int,
                    old(self).turn as int,
                )) as i64,
            ),
        ensures
            final(self).wf(),
            final(self).rotation == old(self).rotation,
            final(self).turn == old(self).turn,
            final(self).pos.x == old(self).pos.x + common::rotate_x_spec(
                speed,
                old(self).rotation as int,
                old(self).turn as int,
            ),
            final(self).pos.y == old(self).pos.y + common::rotate_y_spec(
                speed,
                old(self).rotation as int,
                old(self).turn as int,
            ),
    {
        let delta: Vec2i = common::rotate(speed, self.rotation, self.turn);
        self.pos = Vec2i { x: self.pos.x + delta.x, y: self.pos.y + delta.y };
    }
}

} // verus!
