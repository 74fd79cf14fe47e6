//! Small environments, each proved well formed.

pub mod dull;
pub mod gamble;
pub mod till;
