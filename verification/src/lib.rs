//! Session orchestration for fleets of agent workers.

pub mod actions;
pub mod cli;
pub mod config;
pub mod control;
pub mod daemon;
pub mod ipc;
pub mod jira;
pub mod keymap;
pub mod openspec;
pub mod order;
pub mod paths;
pub mod prompt;
pub mod protocol;
pub mod pty;
pub mod scheduler;
pub mod text;
pub mod time;
pub mod worktree;
