//! Numbers: `binary64` arithmetic on bit patterns, and numbers as text.

pub mod double;
pub mod format;
pub mod laws;
pub mod rounding;
pub mod value_laws;
