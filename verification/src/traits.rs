//! What every exchange has in common.

pub mod accounts;
pub mod exchange;
