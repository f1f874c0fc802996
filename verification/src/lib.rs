//! Durable terminal Runs: the rules of the ctxmux client and daemon.

pub mod base64;
pub mod cli;
pub mod client;
pub mod daemon;
pub mod exchange;
pub mod identity;
pub mod order;
pub mod output;
pub mod promises;
pub mod protocol;
pub mod run_spec;
pub mod scan;
pub mod text;
