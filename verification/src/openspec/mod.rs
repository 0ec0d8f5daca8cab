//! The on-disk layout of OpenSpec changes: task lists, their annotations, and
//! the graph of work that follows from them.

pub mod affected_changes;
pub mod annotations;
pub mod dag;
pub mod discovery;
pub mod tasks_parser;
