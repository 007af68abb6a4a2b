//! The simulation core of an arcade game in which a paddle orbits a core, reflecting and
//! capturing a ball and firing at waves of enemies, modelled in integers and verified.
//!
//! Units: time in milliseconds, angles in millidegrees, positions and speeds in
//! thousandths of a game unit, factors and shares in thousandths, directions with unit
//! length `fixed::DIR_SCALE`.
//!
//! - `fixed`: integer vectors, division toward zero, square roots, mirror reflection.
//! - `timer`: one-shot timers and per-tag cooldowns.
//! - `motion`: damping, velocity, impulse, homing.
//! - `ammo`, `paddle`: the paddle's magazine, heading, sweep effects, mode and gun.
//! - `ball`: the ball's speed, zones and its paddle, wall and enemy hits.
//! - `enemy`, `projectile`: spawning, hits, stopping near the core, clearing the orbit.
//! - `gears`: the core's gears and the damage they take.
//! - `random`: the draws the spawner and the gun make.

pub mod ammo;
pub mod ball;
pub mod enemy;
pub mod fixed;
pub mod gears;
pub mod motion;
pub mod paddle;
pub mod projectile;
pub mod random;
pub mod timer;
