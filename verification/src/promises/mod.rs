//! What the library promises, operation by operation: laws on what a call
//! returns for what it was given, and on how calls relate.

pub mod attachment;
pub mod budget;
pub mod cli;
pub mod commands;
pub mod connector;
pub mod creation;
pub mod events;
pub mod handoff;
pub mod input;
pub mod launch;
pub mod messages;
pub mod output;
pub mod owners;
pub mod publication;
pub mod recovery;
pub mod requests;
pub mod run;
pub mod server;
pub mod stops;
pub mod text;
pub mod tmux;
pub mod upgrade;
