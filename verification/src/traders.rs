//! Strategy position management: storage clients, weights publishing and
//! parameter optimisation.

pub mod cwc;
pub mod optimize;
pub mod rwc;
pub mod base;
pub mod rows;
