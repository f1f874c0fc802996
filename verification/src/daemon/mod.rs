//! The daemon side: retained Runs, their owners and their lifecycle.

pub mod attachment;
pub mod connection;
pub mod creation;
pub mod fd_budget;
pub mod gauges;
pub mod handoff;
pub mod input;
pub mod launch;
pub mod ledger;
pub mod limits;
pub mod manager;
pub mod manifest;
pub mod output_log;
pub mod owners;
pub mod pending;
pub mod pty;
pub mod publication;
pub mod recovery;
pub mod registry;
pub mod run;
pub mod server;
pub mod shutdown;
pub mod tmux_control;
pub mod tmux_tracker;
pub mod upgrade;
