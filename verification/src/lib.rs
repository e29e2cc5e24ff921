//! The core of an in-memory key-value server that speaks a line-oriented
//! binary protocol and replicates from a leader to followers.
//!
//! * [`resp`]: the frames of the wire protocol, their byte encoding, and
//!   the parser that reads them from a buffer.
//! * [`redis`]: the values that keys hold, the store, the state that all
//!   connections share, and what one connection makes of a frame.
//! * [`commands`]: the commands, each with what it does to the shared
//!   state and what it replies.
//! * [`rdb`]: the snapshot format.
//! * [`instance`]: what a leader and a follower decide in replication.
//!
//! Nothing in here reads a clock, a file or a socket. The time is an
//! argument of every function that depends on it, and a command that has
//! to wait is handed back to be run again later.

pub mod commands;
pub mod instance;
pub mod rdb;
pub mod redis;
pub mod resp;
