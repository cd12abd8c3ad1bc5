//! The Anemoi permutation and the hash built on it.

pub mod constants;
pub mod gadgets;
pub mod native;
