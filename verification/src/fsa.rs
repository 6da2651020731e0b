//! The Feishu open platform: replies and access-token bookkeeping.

pub mod base;
