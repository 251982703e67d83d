//! Aggregation of routing-update observations into one row per distinct
//! route-event shape, with a content-derived identity for each shape.

pub mod timestamp;
pub mod record;
pub mod identity;
pub mod aggregate;
pub mod merge;
pub mod derived;
pub mod sink;
pub mod config;
