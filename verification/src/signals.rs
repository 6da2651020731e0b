//! Signal functions.

pub mod cxt;
pub mod pos;
pub mod bar;
