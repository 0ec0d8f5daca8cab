//! The workflow scheduler: which workflow may start, which of its parts may
//! run, and what its commands and its control socket answer.

pub mod cli;
pub mod commands;
pub mod control;
pub mod daemon_client;
pub mod deps;
pub mod dispatch;
pub mod explore;
pub mod runner;
pub mod workflow;
