//! Feature engineering helpers.

pub mod utils;
