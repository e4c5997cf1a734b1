//! Core simulation of a falling-block puzzle game: board and piece state
//! machine, rotation with kick resolution, lock/clear/scoring engine,
//! garbage-attack economy, message framing, and the versus-session rules.

pub mod animation;
pub mod events;
pub mod game;
pub mod garbage;
pub mod input;
pub mod movement;
pub mod piece;
pub mod records;
pub mod protocol;
pub mod scoring;
pub mod session;
pub mod settings;
pub mod transport;
pub mod types;
