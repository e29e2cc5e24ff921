//! The two roles of a server in replication.

pub mod master;
pub mod replica;
