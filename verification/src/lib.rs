//! Replays HTTP traffic that was recorded as newline-delimited JSON.
//!
//! The library holds the rules of a replay: how options become a configuration,
//! which records pass the filters, what is removed from a record before it leaves,
//! what is counted, and how a run moves from one input line to the next. Reading
//! input, sending requests and writing output belong to the program around it.

pub mod cli;
pub mod config;
pub mod counts;
pub mod error;
pub mod filters;
pub mod headers;
pub mod input;
pub mod json;
pub mod keys;
pub mod latency;
pub mod models;
pub mod replay;
pub mod sanitize;
pub mod stats;
pub mod summary;
pub mod text;
