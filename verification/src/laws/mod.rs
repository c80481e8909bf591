//! What commitward promises as a whole.

pub mod acks;
pub mod detection;
pub mod diffs;
pub mod doors;
pub mod evaluation;
pub mod registries;
pub mod surface;
pub mod text;
pub mod views;
