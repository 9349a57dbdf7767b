//! A fixed-point model of an arcade space battle: a ship, its drones, bullets,
//! rockets and mines against asteroids that break into smaller ones.
//!
//! Lengths are counted in points (a thousandth of a world unit), time in
//! milliseconds, speeds in points per second and angles in steps of which
//! 6280 make a full turn. The rules of the battle are stated over these
//! integers.

pub mod asteroid;
pub mod bullet;
pub mod collisions;
pub mod console;
pub mod drone;
pub mod explosions;
pub mod game;
pub mod geometry;
pub mod lifecycle;
pub mod mine;
pub mod particle;
pub mod random;
pub mod rocket;
pub mod rockets;
pub mod ship;

