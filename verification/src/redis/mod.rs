//! The data model and the per-connection command engine.

pub use crate::resp::{
    create_array_resp, create_basic_err_resp, create_bulk_string_resp, create_int_resp,
    create_null_bulk_string_resp, create_simple_string_resp,
};

pub mod client;
pub mod connection;
pub mod dispatch;
pub mod instance;
pub mod store;
pub mod stream_id;
pub mod transaction;
pub mod validity;
