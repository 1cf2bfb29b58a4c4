//! Session engine for a real-time drawing-and-guessing game.
//!
//! The crate verifies the game's core: the reveal mask of the secret word
//! (`word`), the per-room phase state machine with its turn rotation
//! (`room`), the redacted per-participant snapshot that is broadcast after
//! every update (`snapshot`), and the laws that the machine obeys (`laws`).
//! Transport, timers and serialization stay outside the library.

pub mod laws;
pub mod room;
pub mod snapshot;
pub mod word;
