//! Rules of a 3D space-combat game: hit points and damage, the collision
//! rules between ships, lasers and asteroids, the enemy's reinforcement
//! checkpoints, asteroid splitting, the game-state machine and the HUD texts.
//!
//! Entities are identified by `u64` ids and hit points are whole numbers,
//! so that every rule here is a function on plain values.

pub mod health;
pub mod collisions;
pub mod enemy;
pub mod state;
pub mod asteroids;
pub mod hud;
pub mod player;
pub mod debug;
pub mod lineage;
