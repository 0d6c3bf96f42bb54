//! Projectiles: fired at the player's position, they fly leftward at a
//! fixed speed, damage the first enemy they overlap, and despawn on leaving
//! the play field's left boundary.

use vstd::prelude::*;

use crate::geometry::{lemma_step_bound, pos_in_field, BoxSize, Pos, SPEED_LIMIT};

verus! {

/// Projectile speed, milli-units per millisecond (500 units/second).
pub const PROJECTILE_SPEED: i64 = 500;

/// Damage one projectile deals to the enemy it hits.
pub const PROJECTILE_DAMAGE: i64 = 20;

/// Width of the projectile hitbox (100 units).
pub const PROJECTILE_HITBOX_W: i64 = 100_000;

/// Height of the projectile hitbox (50 units).
pub const PROJECTILE_HITBOX_H: i64 = 50_000;

/// The play field's left boundary: a projectile strictly left of this line
/// is despawned (-800 units).
pub const FIELD_LEFT: i64 = -800_000;

#[derive(Clone, Copy, PartialEq, Eq, Structural, Debug)]
pub struct Projectile {
    pub pos: Pos,
    pub speed: i64,
    pub damage: i64,
}

impl Projectile {
    pub open spec fn wf(self) -> bool {
        &&& pos_in_field(self.pos)
        &&& 0 <= self.speed <= SPEED_LIMIT
        &&& 0 <= self.damage
    }

    /// A fresh projectile at `pos` with the default speed and damage.
    pub open spec fn spec_spawned_at(pos: Pos) -> Projectile {
        Projectile { pos, speed: PROJECTILE_SPEED, damage: PROJECTILE_DAMAGE }
    }

    /// The projectile after flying leftward for `dt` milliseconds.
    pub open spec fn spec_advanced(self, dt: u32) -> Projectile {
        Projectile {
            pos: Pos { x: (self.pos.x - self.speed * (dt as int)) as i64, y: self.pos.y },
            speed: self.speed,
            damage: self.damage,
        }
    }

    /// A projectile past the left boundary is spent and must be despawned.
    pub open spec fn past_left_boundary(self) -> bool {
        self.pos.x < FIELD_LEFT
    }

    pub fn damage(&self) -> (r: i64)
        ensures
            r == self.damage,
    {
        self.damage
    }

    /// The 100 x 50 hitbox every projectile presents to enemies.
    pub fn get_hitbox() -> (s: BoxSize)
        ensures
            s == (BoxSize { w: PROJECTILE_HITBOX_W, h: PROJECTILE_HITBOX_H }),
    {
        BoxSize { w: PROJECTILE_HITBOX_W, h: PROJECTILE_HITBOX_H }
    }

    /// A fresh projectile at `pos`.
    pub fn spawned_at(pos: Pos) -> (p: Projectile)
        requires
            pos_in_field(pos),
        ensures
            p == Projectile::spec_spawned_at(pos),
            p.wf(),
    {
        Projectile { pos, speed: PROJECTILE_SPEED, damage: PROJECTILE_DAMAGE }
    }

    /// Flies leftward for `dt` milliseconds. Movement is applied only to
    /// projectiles still inside the field; the boundary check that follows
    /// each movement phase despawns the ones that left it.
    pub fn advance(&mut self, dt: u32)
        requires
            old(self).wf(),
            old(self).pos.x >= FIELD_LEFT,
        ensures
            *final(self) == old(self).spec_advanced(dt),
            final(self).wf(),
            final(self).pos.x <= old(self).pos.x,
            final(self).pos.y == old(self).pos.y,
            final(self).speed == old(self).speed,
            final(self).damage == old(self).damage,
    {
        proof {
            lemma_step_bound(self.speed as int, dt as int);
        }
        let delta: i64 = self.speed * (dt as i64);
        self.pos.x = self.pos.x - delta;
    }

    /// True when this projectile has left the field and must be despawned.
    pub fn is_past_left_boundary(&self) -> (r: bool)
        ensures
            r == self.past_left_boundary(),
    {
        self.pos.x < FIELD_LEFT
    }
}

impl Default for Projectile {
    /// A fresh projectile at the field's center.
    fn default() -> (p: Projectile)
        ensures
            p == Projectile::spec_spawned_at(Pos { x: 0, y: 0 }),
            p.wf(),
    {
        Projectile { pos: Pos { x: 0, y: 0 }, speed: PROJECTILE_SPEED, damage: PROJECTILE_DAMAGE }
    }
}

} // verus!
