//! A sight-reading trainer's notation and matching engine: pitch algebra,
//! key signatures, per-measure accidental resolution, random stave generation
//! and the press/release state machine that walks a cursor through the notes.

pub mod music;
pub mod game;
pub mod layout;
pub mod notation;
mod random;
