//! Helpers of the visual components.

pub mod base;
