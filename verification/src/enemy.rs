//! Enemies and their per-tick state machine: Walking toward the wall,
//! Attacking once they reach it, Dead once their health is gone.
//!
//! Enemy health is clamped at zero when damage lands; zero is the death
//! threshold, matching the clamping policy used for the wall.

use vstd::prelude::*;

use crate::geometry::{lemma_step_bound, BoxSize, Pos, COORD_LIMIT, SPEED_LIMIT, STEP_LIMIT};
use crate::wall::ATTACK_LINE;

verus! {

/// Enemy marching speed, milli-units per millisecond (50 units/second).
pub const ENEMY_SPEED: i64 = 50;

/// Health a fresh enemy starts with.
pub const ENEMY_BASE_HEALTH: i64 = 100;

/// Width of the enemy hurtbox (57.5 units).
pub const ENEMY_HURTBOX_W: i64 = 57_500;

/// Height of the enemy hurtbox (82.5 units).
pub const ENEMY_HURTBOX_H: i64 = 82_500;

/// X coordinate enemies spawn at: the left edge of the play field.
pub const ENEMY_SPAWN_X: i64 = -800_000;

/// Largest x an enemy can ever reach: it stops moving once the attack line
/// is crossed, so one full-length step past the line is the ceiling.
pub const ENEMY_X_LIMIT: i64 = ATTACK_LINE + STEP_LIMIT;

#[derive(Clone, Copy, PartialEq, Eq, Structural, Debug)]
pub enum EnemyState {
    Walking,
    Attacking,
    Dead,
}

#[derive(Clone, Copy, PartialEq, Eq, Structural, Debug)]
pub struct Enemy {
    pub pos: Pos,
    pub speed: i64,
    pub health: i64,
    pub state: EnemyState,
}

impl Enemy {
    pub open spec fn wf(self) -> bool {
        &&& -COORD_LIMIT <= self.pos.x <= ENEMY_X_LIMIT
        &&& -COORD_LIMIT <= self.pos.y <= COORD_LIMIT
        &&& 0 <= self.speed <= SPEED_LIMIT
        &&& 0 <= self.health
    }

    /// A fresh enemy at `pos`: walking, full health, default speed.
    pub open spec fn spec_spawned_at(pos: Pos) -> Enemy {
        Enemy { pos, speed: ENEMY_SPEED, health: ENEMY_BASE_HEALTH, state: EnemyState::Walking }
    }

    /// The enemy after taking `damage`: health drops, clamped at zero;
    /// nothing else changes.
    pub open spec fn spec_damaged(self, damage: i64) -> Enemy {
        Enemy {
            pos: self.pos,
            speed: self.speed,
            health: if damage >= self.health {
                0
            } else {
                (self.health - damage) as i64
            },
            state: self.state,
        }
    }

    /// The state after one evaluation of the transition rules. Dead is
    /// terminal; the health check takes priority over the position check, so
    /// a fatally wounded enemy dies even inside attack range; a walking
    /// enemy that has reached the attack line starts attacking; an attacking
    /// enemy with health left keeps attacking.
    pub open spec fn spec_transitioned(self) -> EnemyState {
        if self.state is Dead {
            EnemyState::Dead
        } else if self.health <= 0 {
            EnemyState::Dead
        } else if self.state is Walking && self.pos.x >= ATTACK_LINE {
            EnemyState::Attacking
        } else {
            self.state
        }
    }

    /// The enemy after one full tick of the state machine: transitions are
    /// evaluated first, then movement applies to the resulting state. Only a
    /// walking enemy moves, rightward by `speed * dt`.
    pub open spec fn spec_stepped(self, dt: u32) -> Enemy {
        let st = self.spec_transitioned();
        if st is Walking {
            Enemy {
                pos: Pos { x: (self.pos.x + self.speed * (dt as int)) as i64, y: self.pos.y },
                speed: self.speed,
                health: self.health,
                state: st,
            }
        } else {
            Enemy { pos: self.pos, speed: self.speed, health: self.health, state: st }
        }
    }

    /// The 57.5 x 82.5 hurtbox every enemy presents to incoming projectiles.
    pub fn get_hurtbox() -> (s: BoxSize)
        ensures
            s == (BoxSize { w: ENEMY_HURTBOX_W, h: ENEMY_HURTBOX_H }),
    {
        BoxSize { w: ENEMY_HURTBOX_W, h: ENEMY_HURTBOX_H }
    }

    pub fn health(&self) -> (r: i64)
        ensures
            r == self.health,
    {
        self.health
    }

    /// A fresh walking enemy at `pos`.
    pub fn spawned_at(pos: Pos) -> (e: Enemy)
        requires
            -COORD_LIMIT <= pos.x <= ENEMY_X_LIMIT,
            -COORD_LIMIT <= pos.y <= COORD_LIMIT,
        ensures
            e == Enemy::spec_spawned_at(pos),
            e.wf(),
    {
        Enemy { pos, speed: ENEMY_SPEED, health: ENEMY_BASE_HEALTH, state: EnemyState::Walking }
    }

    /// One projectile hit landing on this enemy.
    pub fn apply_damage(&mut self, damage: i64)
        requires
            old(self).wf(),
            0 <= damage,
        ensures
            *final(self) == old(self).spec_damaged(damage),
            final(self).wf(),
            final(self).health <= old(self).health,
            final(self).pos == old(self).pos,
            final(self).state == old(self).state,
    {
        if damage >= self.health {
            self.health = 0;
        } else {
            self.health = self.health - damage;
        }
    }

    /// One tick of the state machine: transition, then movement for the
    /// resulting state.
    pub fn step(&mut self, dt: u32)
        requires
            old(self).wf(),
        ensures
            *final(self) == old(self).spec_stepped(dt),
            final(self).wf(),
            final(self).health == old(self).health,
            final(self).pos.x >= old(self).pos.x,
            // a walking enemy at the attack line turns to attacking before
            // any movement is applied that tick
            old(self).state is Walking && old(self).health > 0 && old(self).pos.x >= ATTACK_LINE
                ==> final(self).state is Attacking && final(self).pos == old(self).pos,
            // an enemy out of health is dead within the same tick, wherever
            // it stands
            old(self).health <= 0 ==> final(self).state is Dead,
            old(self).state is Dead ==> final(self).state is Dead && final(self).pos == old(self).pos,
    {
        let next_state: EnemyState = if matches!(self.state, EnemyState::Dead) {
            EnemyState::Dead
        } else if self.health <= 0 {
            EnemyState::Dead
        } else if matches!(self.state, EnemyState::Walking) && self.pos.x >= ATTACK_LINE {
            EnemyState::Attacking
        } else {
            self.state
        };
        self.state = next_state;
        if matches!(self.state, EnemyState::Walking) {
            proof {
                lemma_step_bound(self.speed as int, dt as int);
            }
            let delta: i64 = self.speed * (dt as i64);
            self.pos.x = self.pos.x + delta;
        }
    }
}

impl Default for Enemy {
    /// A fresh enemy at the spawn line, vertically centered.
    fn default() -> (e: Enemy)
        ensures
            e == Enemy::spec_spawned_at(Pos { x: ENEMY_SPAWN_X, y: 0 }),
            e.wf(),
    {
        Enemy {
            pos: Pos { x: ENEMY_SPAWN_X, y: 0 },
            speed: ENEMY_SPEED,
            health: ENEMY_BASE_HEALTH,
            state: EnemyState::Walking,
        }
    }
}

} // verus!
