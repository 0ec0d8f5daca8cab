//! The command line: what its commands ask for and what they print.

pub mod attach;
pub mod config;
pub mod daemon_client;
pub mod flow;
pub mod keys;
pub mod keys_command;
pub mod qp;
pub mod reply;
pub mod run;
pub mod status;
pub mod store;
pub mod submit;
