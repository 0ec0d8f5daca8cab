//! The arguments of the scheduler's commands.

use vstd::prelude::*;

verus! {

/// A call of the scheduler.
#[derive(Debug, PartialEq)]
pub struct Cli {
    /// The log level, where one is given.
    pub log: Option<String>,
    pub command: Command,
}

/// A command of the scheduler.
#[derive(Debug, PartialEq)]
pub enum Command {
    /// Watch for queued changes until interrupted.
    Daemon(DaemonArgs),
    /// Pick up a queued change at once.
    Apply(ApplyArgs),
    /// Archive a verified change.
    Archive(NameArg),
    /// Cancel a workflow.
    Cancel(NameArg),
    /// List the changes that are not queued.
    Drafts(DraftsArgs),
    /// Have a change proposed for an idea.
    Propose(ProposeArgs),
    /// Queue a change.
    Queue(QueueArgs),
    /// Dispatch a section again.
    Retry(RetryArgs),
    /// Show workflows.
    Status(StatusArgs),
    /// Manage the prompt templates.
    Templates(TemplatesArgs),
    /// Take a change out of the queue.
    Unqueue(NameArg),
}

#[derive(Debug, PartialEq)]
pub struct DaemonArgs {
    /// The directory to watch in place of the current one.
    pub root: Option<String>,
}

#[derive(Debug, PartialEq)]
pub struct ApplyArgs {
    /// The name of the change.
    pub name: String,
    pub root: Option<String>,
}

#[derive(Debug, PartialEq)]
pub struct NameArg {
    pub name: String,
}

#[derive(Debug, PartialEq)]
pub struct DraftsArgs {
    pub root: Option<String>,
}

#[derive(Debug, PartialEq)]
pub struct ProposeArgs {
    /// The words of the idea.
    pub idea: Vec<String>,
    pub root: Option<String>,
}

#[derive(Debug, PartialEq)]
pub struct QueueArgs {
    pub name: String,
    /// A higher one runs first.
    pub priority: Option<i32>,
    pub root: Option<String>,
}

#[derive(Debug, PartialEq)]
pub struct RetryArgs {
    pub name: String,
    /// The id of a section or a task.
    pub section: Option<String>,
}

#[derive(Debug, PartialEq)]
pub struct StatusArgs {
    /// The workflow to show; all of them where it is not given.
    pub name: Option<String>,
}

#[derive(Debug, PartialEq)]
pub struct TemplatesArgs {
    pub action: TemplatesAction,
}

#[derive(Debug, PartialEq)]
pub enum TemplatesAction {
    /// Print the templates directory.
    Path,
    /// Open the templates directory in an editor.
    Edit,
}

} // verus!
