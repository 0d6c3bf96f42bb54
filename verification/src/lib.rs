//! Combat and economy core of a 2D wall-defense arcade game.
//!
//! Enemies march rightward toward a defended wall, the player fires
//! projectiles leftward to stop them, surviving enemies batter the wall,
//! and kills earn currency that funds wall repairs and upgrades.
//!
//! All world coordinates and distances are integers in thousandths of a
//! world unit ("milli-units"), so that half-unit box sizes such as the
//! 57.5 x 82.5 enemy hurtbox are exact. Speeds are in milli-units per
//! millisecond, which makes a speed of `50` milli-units/ms numerically
//! equal to the conventional 50 units/second.

pub mod collisions;
pub mod enemy;
pub mod geometry;
pub mod laws;
pub mod player;
pub mod projectile;
pub mod registry;
pub mod sim;
pub mod wall;
