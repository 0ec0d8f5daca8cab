//! The daemon: prompts, the workers that run them, and the clients that watch.

pub mod connection;
pub mod effect;
pub mod laws;
pub mod model;
pub mod orchestrator;
pub mod pty_worker;
pub mod report_laws;
pub mod request_laws;
pub mod restore;
pub mod session;
pub mod startup;
pub mod worker;
