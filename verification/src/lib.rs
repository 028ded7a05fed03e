//! Verified core of a typing-practice game.
//!
//! A player retypes a reference snippet character by character. The library
//! tracks what has been typed correctly, which mistakes are pending
//! correction, and derived statistics (progress, words per minute, accuracy).

pub mod laws;
pub mod normalize;
pub mod state;
pub mod stats;
