//! Client-side protocol logic for the Rfinex exchange API.
//!
//! The crate builds the request that each operation sends (public requests
//! carry their parameters as given, private ones are signed over a canonical
//! form of them) and decodes the JSON bodies that come back into typed
//! values.  It performs no network I/O itself: a caller sends each
//! [`traits::exchange::Request`] and hands the body it received to the
//! matching decoder.

pub mod amount;
pub mod exchanges;
pub mod json;
pub mod query;
pub mod report;
pub mod text;
pub mod traits;
pub mod util;
