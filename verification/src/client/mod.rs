//! The client side: what it may send, and what the daemon's answers prove.

pub mod attachment;
pub mod commands;
pub mod connector;
pub mod error;
pub mod inbox;
pub mod receipt;
pub mod replay;
pub mod requests;
