//! The player: a fixed horizontal position on the right of the field, a
//! vertical position moved by input, and the currency ("wealth") earned from
//! kills and spent on wall purchases.

use vstd::prelude::*;

use crate::geometry::{lemma_step_bound, pos_in_field, Pos, SPEED_LIMIT};

verus! {

/// Player movement speed, milli-units per millisecond (300 units/second).
pub const PLAYER_SPEED: i64 = 300;

/// X coordinate the player stands at; only the y coordinate ever moves.
pub const PLAYER_START_X: i64 = 750_000;

/// Y coordinate the player starts at.
pub const PLAYER_START_Y: i64 = 100_000;

/// Half the player's sprite height, used for the vertical movement bound.
pub const PLAYER_HALF_HEIGHT: i64 = 40_000;

/// Half-height of the vertical band the player may occupy and enemies may
/// spawn in (385 units).
pub const VERTICAL_BAND: i64 = 385_000;

/// Currency awarded for one enemy kill.
pub const KILL_REWARD: u64 = 1;

#[derive(Clone, Copy, PartialEq, Eq, Structural, Debug)]
pub enum VerticalDir {
    Up,
    Down,
}

#[derive(Clone, Copy, PartialEq, Eq, Structural, Debug)]
pub struct Player {
    pub pos: Pos,
    pub speed: i64,
    pub wealth: u64,
}

impl Player {
    pub open spec fn wf(self) -> bool {
        &&& pos_in_field(self.pos)
        &&& 0 <= self.speed <= SPEED_LIMIT
    }

    pub open spec fn initial() -> Player {
        Player { pos: Pos { x: PLAYER_START_X, y: PLAYER_START_Y }, speed: PLAYER_SPEED, wealth: 0 }
    }

    /// The player after one movement command: it moves by `speed * millis`
    /// in the given direction, but only when the whole sprite would stay
    /// inside the vertical band; otherwise it stays put.
    pub open spec fn spec_moved(self, dir: VerticalDir, millis: u32) -> Player {
        let dy = self.speed * (millis as int);
        match dir {
            VerticalDir::Up => {
                if self.pos.y + dy + PLAYER_HALF_HEIGHT < VERTICAL_BAND {
                    Player {
                        pos: Pos { x: self.pos.x, y: (self.pos.y + dy) as i64 },
                        speed: self.speed,
                        wealth: self.wealth,
                    }
                } else {
                    self
                }
            },
            VerticalDir::Down => {
                if self.pos.y - dy - PLAYER_HALF_HEIGHT > -VERTICAL_BAND {
                    Player {
                        pos: Pos { x: self.pos.x, y: (self.pos.y - dy) as i64 },
                        speed: self.speed,
                        wealth: self.wealth,
                    }
                } else {
                    self
                }
            },
        }
    }

    pub fn wealth(&self) -> (r: u64)
        ensures
            r == self.wealth,
    {
        self.wealth
    }

    /// Unconditional earnings, one call per source event.
    pub fn add_wealth(&mut self, amount: u64)
        requires
            old(self).wealth + amount <= u64::MAX,
        ensures
            final(self).wealth == old(self).wealth + amount,
            final(self).pos == old(self).pos,
            final(self).speed == old(self).speed,
    {
        self.wealth = self.wealth + amount;
    }

    /// Spending presumes the caller already checked affordability; wealth can
    /// never go negative.
    pub fn spend(&mut self, amount: u64)
        requires
            amount <= old(self).wealth,
        ensures
            final(self).wealth == old(self).wealth - amount,
            final(self).pos == old(self).pos,
            final(self).speed == old(self).speed,
    {
        self.wealth = self.wealth - amount;
    }

    /// Applies one vertical movement command lasting `millis` milliseconds.
    pub fn move_vertical(&mut self, dir: VerticalDir, millis: u32)
        requires
            old(self).wf(),
        ensures
            *final(self) == old(self).spec_moved(dir, millis),
            final(self).wf(),
            final(self).wealth == old(self).wealth,
            final(self).pos.x == old(self).pos.x,
    {
        proof {
            lemma_step_bound(self.speed as int, millis as int);
        }
        let dy: i64 = self.speed * (millis as i64);
        match dir {
            VerticalDir::Up => {
                if self.pos.y + dy + PLAYER_HALF_HEIGHT < VERTICAL_BAND {
                    self.pos.y = self.pos.y + dy;
                }
            },
            VerticalDir::Down => {
                if self.pos.y - dy - PLAYER_HALF_HEIGHT > -VERTICAL_BAND {
                    self.pos.y = self.pos.y - dy;
                }
            },
        }
    }
}

impl Default for Player {
    /// A fresh player at the starting position with no wealth.
    fn default() -> (p: Player)
        ensures
            p == Player::initial(),
            p.wf(),
    {
        Player { pos: Pos { x: PLAYER_START_X, y: PLAYER_START_Y }, speed: PLAYER_SPEED, wealth: 0 }
    }
}

} // verus!
