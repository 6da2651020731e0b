//! Research helpers: strategy research settings and event detection.

pub mod cta;
pub mod event;
