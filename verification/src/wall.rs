//! The defended wall: health, maximum health, incoming damage, and the two
//! purchasable improvements (repair and max-health upgrade).
//!
//! Damage is clamped at zero health rather than driven negative: zero is the
//! loss threshold, and that clamping policy is applied consistently here and
//! for enemy health.

use vstd::prelude::*;

verus! {

/// X coordinate of the wall's left face, in milli-units (600 units).
pub const WALL_LEFT: i64 = 600_000;

/// Width of one wall segment, in milli-units (64 units).
pub const WALL_SIZE: i64 = 64_000;

/// An enemy whose x position has reached this line starts attacking.
pub const ATTACK_LINE: i64 = WALL_LEFT - WALL_SIZE;

/// Health the wall starts with, which is also its starting maximum.
pub const WALL_BASE_HEALTH: i64 = 200;

/// Health restored by one repair purchase.
pub const REPAIR_AMOUNT: i64 = 10;

/// Currency cost of one repair purchase.
pub const REPAIR_COST: u64 = 100;

/// Max-health gained by one upgrade purchase.
pub const UPGRADE_AMOUNT: i64 = 20;

/// Currency cost of one upgrade purchase.
pub const UPGRADE_COST: u64 = 1000;

/// Damage one completed enemy attack cycle deals to the wall.
pub const ATTACK_DAMAGE: i64 = 10;

#[derive(Clone, Copy, PartialEq, Eq, Structural, Debug)]
pub struct Wall {
    pub health: i64,
    pub max_health: i64,
}

impl Wall {
    pub open spec fn wf(self) -> bool {
        0 <= self.health <= self.max_health
    }

    pub open spec fn initial() -> Wall {
        Wall { health: WALL_BASE_HEALTH, max_health: WALL_BASE_HEALTH }
    }

    /// The wall after taking `damage`: health drops, clamped at zero.
    pub open spec fn spec_damaged(self, damage: i64) -> Wall {
        Wall {
            health: if damage >= self.health {
                0
            } else {
                (self.health - damage) as i64
            },
            max_health: self.max_health,
        }
    }

    /// The wall after one repair: health rises by `REPAIR_AMOUNT`, capped at
    /// the maximum.
    pub open spec fn spec_repaired(self) -> Wall {
        Wall {
            health: if self.health + REPAIR_AMOUNT > self.max_health {
                self.max_health
            } else {
                (self.health + REPAIR_AMOUNT) as i64
            },
            max_health: self.max_health,
        }
    }

    /// The wall after one upgrade: the maximum rises by `UPGRADE_AMOUNT` and
    /// the wall is fully healed to the new maximum.
    pub open spec fn spec_upgraded(self) -> Wall {
        Wall {
            health: (self.max_health + UPGRADE_AMOUNT) as i64,
            max_health: (self.max_health + UPGRADE_AMOUNT) as i64,
        }
    }

    pub fn health(&self) -> (r: i64)
        ensures
            r == self.health,
    {
        self.health
    }

    pub fn max_health(&self) -> (r: i64)
        ensures
            r == self.max_health,
    {
        self.max_health
    }

    /// Unconditional hit on the wall; health never drops below zero.
    pub fn apply_damage(&mut self, damage: i64)
        requires
            old(self).wf(),
            0 <= damage,
        ensures
            *final(self) == old(self).spec_damaged(damage),
            final(self).wf(),
            final(self).health <= old(self).health,
            final(self).max_health == old(self).max_health,
    {
        if damage >= self.health {
            self.health = 0;
        } else {
            self.health = self.health - damage;
        }
    }

    /// Restores `REPAIR_AMOUNT` health, capped at `max_health`. Affordability
    /// is the purchase handler's concern, so this has no failure mode.
    pub fn repair(&mut self)
        requires
            old(self).wf(),
        ensures
            *final(self) == old(self).spec_repaired(),
            final(self).wf(),
            final(self).health >= old(self).health,
            final(self).max_health == old(self).max_health,
    {
        if self.max_health - self.health < REPAIR_AMOUNT {
            self.health = self.max_health;
        } else {
            self.health = self.health + REPAIR_AMOUNT;
        }
    }

    /// Raises `max_health` by `UPGRADE_AMOUNT` and fully heals to the new
    /// maximum. Affordability is the purchase handler's concern.
    pub fn upgrade_max_health(&mut self)
        requires
            old(self).wf(),
            old(self).max_health + UPGRADE_AMOUNT <= i64::MAX,
        ensures
            *final(self) == old(self).spec_upgraded(),
            final(self).wf(),
            final(self).max_health == old(self).max_health + UPGRADE_AMOUNT,
            final(self).health == final(self).max_health,
    {
        self.max_health = self.max_health + UPGRADE_AMOUNT;
        self.health = self.max_health;
    }
}

impl Default for Wall {
    /// A fresh wall at full base health.
    fn default() -> (w: Wall)
        ensures
            w == Wall::initial(),
            w.wf(),
    {
        Wall { health: WALL_BASE_HEALTH, max_health: WALL_BASE_HEALTH }
    }
}

} // verus!
