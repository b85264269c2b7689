//! The replay of records.

pub mod client;
pub mod pipeline;
pub mod sender;
