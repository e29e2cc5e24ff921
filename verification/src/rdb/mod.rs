//! The snapshot format.

pub mod rdb;
