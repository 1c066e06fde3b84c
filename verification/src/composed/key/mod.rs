//! The making of new composite keys.

pub mod shared;
