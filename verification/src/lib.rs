//! Text statistics: a single-pass accumulator that derives byte, line, word,
//! and character (Unicode scalar value) counts from raw byte input.

pub mod counting;
pub mod laws;
pub mod stats;
