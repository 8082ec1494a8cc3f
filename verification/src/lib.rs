//! Simulation core of a small arcade shooter.
//!
//! The player's ship dodges and shoots enemies that come down the screen.
//! This library holds the rules: how things move, when they collide, what a
//! collision does, what is removed, how the score is kept, and which screen
//! the game is on. Window, input, sound and drawing are the caller's; each
//! frame the caller hands in a [`world::FrameInput`] and gets back a
//! [`game::FrameOutput`].
//!
//! All quantities are whole numbers. A length is a number of thousandths of
//! a pixel, a speed is a number of those per second, and a time is a number
//! of microseconds; see [`units`].
//!
//! [`world::World`] says what a frame does, [`game::Game`] does it, and
//! [`laws`] states what follows for every frame.

pub mod combat;
pub mod entities;
pub mod game;
pub mod geometry;
pub mod laws;
pub mod ledger;
pub mod movement;
pub mod prune;
pub mod random;
pub mod score;
pub mod spawner;
pub mod state;
pub mod units;
pub mod world;
