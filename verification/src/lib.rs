//! Insiculous Pong: the match rules of a neon Pong game with chaos modes,
//! power-ups and achievements, kept apart from the engine that draws and
//! simulates it.
//!
//! The game state here holds plain values: entity handles are `u64`, scores
//! are integers, and every step that would touch the engine hands back a list
//! of [`types::Command`]s for the host to carry out.

pub mod types;
pub mod balls;

pub mod achievements;
pub mod game;
pub mod scoring;
pub mod menu;
pub mod power_ups;
pub mod ui;
pub mod paddles;
pub mod laws;
pub mod goal_laws;
