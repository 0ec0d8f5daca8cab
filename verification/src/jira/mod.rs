//! Tickets of a Jira site as a source of workflows: polling the queues, the
//! REST requests and their retries, the configuration, and what is written
//! back to a ticket.

pub mod auth;
pub mod client;
pub mod config;
pub mod error;
pub mod event;
pub mod source;
pub mod writeback;
