//! A verified chess position: the 8-by-8 board, pseudo-legal move generation
//! for every piece kind, check detection, and the copy-and-validate filter
//! that keeps only moves which do not leave the mover's own king attacked.

pub mod board;
pub mod check;
pub mod laws;
pub mod moves;
pub mod rules;
