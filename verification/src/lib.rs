//! A growable last-in-first-out container with a manual cursor and
//! whole-container traversals, each with a machine-checked contract.

pub mod cursor;
pub mod laws;
pub mod stack;
pub mod traverse;
