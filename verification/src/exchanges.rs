//! The exchanges that the crate speaks to.

pub mod rfinex;
