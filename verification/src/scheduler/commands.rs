//! What the scheduler's commands do and print.
//!
//! Each command is a decision over what was read: the files, the stored
//! workflows and the time are arguments, and what is to be written, sent or
//! printed is the result.

use vstd::prelude::*;
use vstd::string::*;

use super::cli::{NameArg, ProposeArgs, QueueArgs, RetryArgs, StatusArgs};
use super::workflow::{
    workflow_views, StatusView, Timestamp, Workflow, WorkflowStatus, WorkflowView,
};
use crate::openspec::annotations::{
    annotate, annotated, annotated_items, annotated_views, AnnotatedSection, AnnotatedSectionView,
    AnnotatedTask, AnnotatedTaskView,
};
use crate::openspec::dag::{self, DagNode, DagNodeView};
use crate::openspec::discovery::{ChangeStatus, DiscoveredChange, MARKER_FILENAME};
use crate::openspec::tasks_parser;
use crate::order::{sort_by_name, sorted_by_name, Named};
use crate::paths::{join_path, joined_path};
use crate::protocol::{submission, ClientRequest, Submission};
use crate::text;

verus! {

// ---------------------------------------------------------------------
// Results
// ---------------------------------------------------------------------

/// What a command prints.
#[derive(Debug, PartialEq, Eq)]
pub struct CommandOutput {
    pub stdout: String,
    pub stderr: String,
}

/// Whether `o` prints `stdout` and nothing else.
pub open spec fn prints(o: CommandOutput, stdout: Seq<char>) -> bool {
    o.stdout@ == stdout && o.stderr@.len() == 0
}

impl CommandOutput {
    /// The output of a command that prints `stdout`.
    pub fn ok(stdout: String) -> (r: CommandOutput)
        ensures
            prints(r, stdout@),
    {
        CommandOutput { stdout, stderr: String::new() }
    }
}

impl Default for CommandOutput {
    fn default() -> (r: Self)
        ensures
            prints(r, Seq::empty()),
    {
        let stdout: String = String::new();
        proof {
            assert(stdout@ =~= Seq::<char>::empty());
        }
        CommandOutput { stdout, stderr: String::new() }
    }
}

/// Why a command failed.
#[derive(Debug, PartialEq)]
pub enum CommandError {
    Io(String),
    Store(String),
    NoSuchChange(String),
    NoSuchWorkflow(String),
    BadState { name: String, what: String },
    Daemon(String),
    Render(String),
    Other(String),
}

/// What a [`CommandError`] holds.
pub ghost enum CommandErrorView {
    Io(Seq<char>),
    Store(Seq<char>),
    NoSuchChange(Seq<char>),
    NoSuchWorkflow(Seq<char>),
    BadState { name: Seq<char>, what: Seq<char> },
    Daemon(Seq<char>),
    Render(Seq<char>),
    Other(Seq<char>),
}

impl View for CommandError {
    type V = CommandErrorView;

    open spec fn view(&self) -> CommandErrorView {
        match *self {
            CommandError::Io(e) => CommandErrorView::Io(e@),
            CommandError::Store(e) => CommandErrorView::Store(e@),
            CommandError::NoSuchChange(n) => CommandErrorView::NoSuchChange(n@),
            CommandError::NoSuchWorkflow(n) => CommandErrorView::NoSuchWorkflow(n@),
            CommandError::BadState { name, what } => CommandErrorView::BadState {
                name: name@,
                what: what@,
            },
            CommandError::Daemon(e) => CommandErrorView::Daemon(e@),
            CommandError::Render(e) => CommandErrorView::Render(e@),
            CommandError::Other(s) => CommandErrorView::Other(s@),
        }
    }
}

/// The message for an error.
pub open spec fn command_error_text(e: CommandErrorView) -> Seq<char> {
    match e {
        CommandErrorView::Io(e) => "io: "@ + e,
        CommandErrorView::Store(e) => "store: "@ + e,
        CommandErrorView::NoSuchChange(n) => "no such change directory: openspec/changes/"@ + n,
        CommandErrorView::NoSuchWorkflow(n) => "no such workflow: "@ + n,
        CommandErrorView::BadState { name, what } => name + ": "@ + what,
        CommandErrorView::Daemon(e) => e,
        CommandErrorView::Render(e) => "render: "@ + e,
        CommandErrorView::Other(s) => s,
    }
}

impl CommandError {
    /// The message for this error.
    pub fn to_text(&self) -> (r: String)
        ensures
            r@ == command_error_text(self@),
    {
        match self {
            CommandError::Io(e) => text::cat2("io: ", e.as_str()),
            CommandError::Store(e) => text::cat2("store: ", e.as_str()),
            CommandError::NoSuchChange(n) => text::cat2(
                "no such change directory: openspec/changes/",
                n.as_str(),
            ),
            CommandError::NoSuchWorkflow(n) => text::cat2("no such workflow: ", n.as_str()),
            CommandError::BadState { name, what } => text::cat3(
                name.as_str(),
                ": ",
                what.as_str(),
            ),
            CommandError::Daemon(e) => e.clone(),
            CommandError::Render(e) => text::cat2("render: ", e.as_str()),
            CommandError::Other(s) => s.clone(),
        }
    }
}

/// The directory that a command works in: the one it is given, or else the
/// current one, if that can be told.
pub fn resolve_root(arg: Option<String>, current: Result<String, String>) -> (r: Result<
    String,
    CommandError,
>)
    ensures
        match arg {
            Some(p) => r matches Ok(x) && x@ == p@,
            None => match current {
                Ok(c) => r matches Ok(x) && x@ == c@,
                Err(e) => r matches Err(x) && x@ == CommandErrorView::Io(e@),
            },
        },
{
    match arg {
        Some(p) => Ok(p),
        None => match current {
            Ok(c) => Ok(c),
            Err(e) => Err(CommandError::Io(e)),
        },
    }
}

// ---------------------------------------------------------------------
// queue, unqueue, drafts
// ---------------------------------------------------------------------

/// The directory of a change.
pub open spec fn change_path(root: Seq<char>, name: Seq<char>) -> Seq<char> {
    joined_path(joined_path(joined_path(root, "openspec"@), "changes"@), name)
}

/// The directory of a change.
pub fn change_dir(root: &str, name: &str) -> (r: String)
    ensures
        r@ == change_path(root@, name@),
{
    let a: String = join_path(root, "openspec");
    let b: String = join_path(a.as_str(), "changes");
    join_path(b.as_str(), name)
}

/// The file that marks a change as queued.
pub open spec fn marker_path_of(root: Seq<char>, name: Seq<char>) -> Seq<char> {
    joined_path(change_path(root, name), MARKER_FILENAME@)
}

/// The file that marks a change as queued.
pub fn marker_path(root: &str, name: &str) -> (r: String)
    ensures
        r@ == marker_path_of(root@, name@),
{
    let dir: String = change_dir(root, name);
    join_path(dir.as_str(), MARKER_FILENAME)
}

/// What stands in the marker of a change with the given priority.
pub open spec fn marker_body(priority: Option<i32>) -> Seq<char> {
    match priority {
        Some(p) => "priority = "@ + text::signed_decimal(p as int) + "\n"@,
        None => Seq::empty(),
    }
}

/// What stands in the marker of a change with the given priority.
pub fn render_marker_body(priority: Option<i32>) -> (r: String)
    ensures
        r@ == marker_body(priority),
{
    match priority {
        Some(p) => {
            let n: String = text::signed_number(p as i64);
            text::cat3("priority = ", n.as_str(), "\n")
        },
        None => {
            let out: String = String::new();
            proof {
                assert(out@ =~= Seq::<char>::empty());
            }
            out
        },
    }
}

/// A file to write, and what to print once it is written.
#[derive(Debug, PartialEq)]
pub struct MarkerWrite {
    pub path: String,
    pub body: String,
    pub output: CommandOutput,
}

/// Whether `r` is what queueing a change comes to, by whether it has a
/// directory.
pub open spec fn queued(
    r: Result<MarkerWrite, CommandError>,
    name: Seq<char>,
    priority: Option<i32>,
    root: Seq<char>,
    is_dir: bool,
) -> bool {
    if is_dir {
        &&& r matches Ok(w)
        &&& w.path@ == marker_path_of(root, name)
        &&& w.body@ == marker_body(priority)
        &&& prints(w.output, "queued: "@ + name + "\n"@)
    } else {
        r matches Err(e) && e@ == CommandErrorView::NoSuchChange(name)
    }
}

/// Queue a change: the marker to write, if the change has a directory.
pub fn queue(args: &QueueArgs, root: &str, is_dir: bool) -> (r: Result<MarkerWrite, CommandError>)
    ensures
        queued(r, args.name@, args.priority, root@, is_dir),
{
    if !is_dir {
        return Err(CommandError::NoSuchChange(args.name.clone()));
    }
    Ok(
        MarkerWrite {
            path: marker_path(root, args.name.as_str()),
            body: render_marker_body(args.priority),
            output: CommandOutput::ok(text::cat3("queued: ", args.name.as_str(), "\n")),
        },
    )
}

/// How the removal of a file went.
#[derive(Debug, PartialEq)]
pub enum Removal {
    Removed,
    /// There was no such file.
    NotFound,
    Failed(String),
}

/// Whether `r` is what to print after the marker of a change was to be removed.
pub open spec fn unqueued(
    r: Result<CommandOutput, CommandError>,
    name: Seq<char>,
    removal: Removal,
) -> bool {
    match removal {
        Removal::Removed => r matches Ok(o) && prints(o, "unqueued: "@ + name + "\n"@),
        Removal::NotFound => r matches Ok(o) && prints(
            o,
            "unqueued: "@ + name + " (already removed)\n"@,
        ),
        Removal::Failed(e) => r matches Err(x) && x@ == CommandErrorView::Io(e@),
    }
}

/// What to print after the marker of a change was to be removed. A change that
/// had none is as good.
pub fn unqueue(args: &NameArg, removal: &Removal) -> (r: Result<CommandOutput, CommandError>)
    ensures
        unqueued(r, args.name@, *removal),
{
    match removal {
        Removal::Removed => Ok(
            CommandOutput::ok(text::cat3("unqueued: ", args.name.as_str(), "\n")),
        ),
        Removal::NotFound => Ok(
            CommandOutput::ok(
                text::cat3("unqueued: ", args.name.as_str(), " (already removed)\n"),
            ),
        ),
        Removal::Failed(e) => Err(CommandError::Io(e.clone())),
    }
}

impl<'a> Named for &'a DiscoveredChange {
    open spec fn name_text(&self) -> Seq<char> {
        self.name@
    }

    fn name_str(&self) -> (r: &str) {
        self.name.as_str()
    }
}

/// The changes that are drafts.
pub open spec fn draft_changes<'a>(changes: Seq<DiscoveredChange>) -> Seq<&'a DiscoveredChange>
    decreases changes.len(),
{
    if changes.len() == 0 {
        Seq::empty()
    } else {
        let c = changes.last();
        let before = draft_changes(changes.drop_last());
        if c.status is Drafted {
            before.push(&c)
        } else {
            before
        }
    }
}

/// The names of changes, one to a line.
pub open spec fn name_lines(changes: Seq<&DiscoveredChange>) -> Seq<char>
    decreases changes.len(),
{
    if changes.len() == 0 {
        Seq::empty()
    } else {
        name_lines(changes.drop_last()) + changes.last().name@ + "\n"@
    }
}

/// List the changes that are not queued, in the order of their names.
pub fn drafts(changes: &Vec<DiscoveredChange>) -> (r: CommandOutput)
    ensures
        prints(r, name_lines(sorted_by_name(draft_changes(changes@)))),
{
    let mut found: Vec<&DiscoveredChange> = Vec::new();
    let mut i: usize = 0;
    while i < changes.len()
        invariant
            i <= changes.len(),
            found@ == draft_changes(changes@.take(i as int)),
        decreases changes.len() - i,
    {
        proof {
            assert(changes@.take(i + 1).drop_last() =~= changes@.take(i as int));
        }
        if let ChangeStatus::Drafted = changes[i].status {
            found.push(&changes[i]);
        }
        i = i + 1;
    }
    proof {
        assert(changes@.take(changes@.len() as int) =~= changes@);
    }
    let sorted: Vec<&DiscoveredChange> = sort_by_name(found);
    let mut out: String = String::new();
    let mut j: usize = 0;
    proof {
        assert(out@ =~= name_lines(sorted@.take(0)));
    }
    while j < sorted.len()
        invariant
            j <= sorted.len(),
            out@ == name_lines(sorted@.take(j as int)),
        decreases sorted.len() - j,
    {
        proof {
            assert(sorted@.take(j + 1).drop_last() =~= sorted@.take(j as int));
        }
        out.append(sorted[j].name.as_str());
        out.append("\n");
        j = j + 1;
    }
    proof {
        assert(sorted@.take(sorted@.len() as int) =~= sorted@);
    }
    CommandOutput::ok(out)
}

// ---------------------------------------------------------------------
// status
// ---------------------------------------------------------------------

/// The word for a phase.
pub open spec fn status_label(s: StatusView) -> Seq<char> {
    match s {
        StatusView::Drafted => "drafted"@,
        StatusView::Queued => "queued"@,
        StatusView::Implementing => "implementing"@,
        StatusView::Verifying => "verifying"@,
        StatusView::Archiving => "archiving"@,
        StatusView::Archived => "archived"@,
        StatusView::Cancelled => "cancelled"@,
        StatusView::Failed { .. } => "failed"@,
    }
}

/// The word for a phase.
pub fn workflow_status_label(s: &WorkflowStatus) -> (r: &'static str)
    ensures
        r@ == status_label(s@),
{
    match s {
        WorkflowStatus::Drafted => "drafted",
        WorkflowStatus::Queued => "queued",
        WorkflowStatus::Implementing => "implementing",
        WorkflowStatus::Verifying => "verifying",
        WorkflowStatus::Archiving => "archiving",
        WorkflowStatus::Archived => "archived",
        WorkflowStatus::Cancelled => "cancelled",
        WorkflowStatus::Failed { .. } => "failed",
    }
}

/// A point in time in the form of RFC 3339, if it is one that a calendar
/// holds.
pub uninterp spec fn rfc3339_text(secs: i64, nanos: u32) -> Option<Seq<char>>;

/// `chrono::DateTime::to_rfc3339` on the time that
/// `DateTime::<Utc>::from_timestamp` gives for the seconds and nanoseconds.
/// The calendar is left to the `chrono` crate; the same time always gives the
/// same text, and a time outside its calendar gives none.
#[verifier::external_body]
fn rfc3339(secs: i64, nanos: u32) -> (r: Option<String>)
    ensures
        text::text_option(r) == rfc3339_text(secs, nanos),
{
    chrono::DateTime::<chrono::Utc>::from_timestamp(secs, nanos).map(|t| t.to_rfc3339())
}

/// A point in time as it is shown; a dash where there is none.
pub open spec fn shown_time(t: Option<Timestamp>) -> Seq<char> {
    match t {
        Some(t) => match rfc3339_text(t.secs, t.nanos) {
            Some(s) => s,
            None => "-"@,
        },
        None => "-"@,
    }
}

/// A point in time as it is shown; a dash where there is none.
pub fn iso_or_dash(t: Option<Timestamp>) -> (r: String)
    ensures
        r@ == shown_time(t),
{
    match t {
        Some(t) => match rfc3339(t.secs, t.nanos) {
            Some(s) => s,
            None => text::owned("-"),
        },
        None => text::owned("-"),
    }
}

/// The whole seconds from `from` to `to`; a part of a second does not count.
pub open spec fn seconds_between(from: Timestamp, to: Timestamp) -> int {
    let nanos = (to.secs - from.secs) * 1_000_000_000 + (to.nanos - from.nanos);
    if nanos >= 0 {
        nanos / 1_000_000_000
    } else {
        -((-nanos) / 1_000_000_000)
    }
}

/// How long ago `t` was at `now`, in the largest unit that fits.
pub open spec fn ago(t: Timestamp, now: Timestamp) -> Seq<char> {
    let secs = seconds_between(t, now);
    if secs < 60 {
        text::signed_decimal(secs) + "s ago"@
    } else if secs < 3600 {
        text::decimal((secs / 60) as nat) + "m ago"@
    } else if secs < 86_400 {
        text::decimal((secs / 3600) as nat) + "h ago"@
    } else {
        text::decimal((secs / 86_400) as nat) + "d ago"@
    }
}

/// `n` with a minus sign in front.
fn negative(n: u128) -> (r: String)
    ensures
        r@ == seq!['-'] + text::decimal(n as nat),
{
    let mut out: String = String::new();
    out.push('-');
    proof {
        assert(out@ =~= seq!['-']);
    }
    let magnitude: String = text::number(n);
    out.append(magnitude.as_str());
    out
}

/// How long ago `t` was at `now`, in the largest unit that fits.
pub fn relative_time(t: Timestamp, now: Timestamp) -> (r: String)
    ensures
        r@ == ago(t, now),
{
    let nanos: i128 = (now.secs as i128 - t.secs as i128) * 1_000_000_000 + (now.nanos as i128
        - t.nanos as i128);
    if nanos < 0 {
        let secs: u128 = (-nanos) as u128 / 1_000_000_000;
        if secs == 0 {
            let n: String = text::number(0);
            return text::cat2(n.as_str(), "s ago");
        }
        let n: String = negative(secs);
        return text::cat2(n.as_str(), "s ago");
    }
    let secs: u128 = nanos as u128 / 1_000_000_000;
    let (count, unit): (u128, &str) = if secs < 60 {
        (secs, "s ago")
    } else if secs < 3600 {
        (secs / 60, "m ago")
    } else if secs < 86_400 {
        (secs / 3600, "h ago")
    } else {
        (secs / 86_400, "d ago")
    };
    let n: String = text::number(count);
    text::cat2(n.as_str(), unit)
}

/// What is said of a workflow behind its phase: why it failed, or else when it
/// ended or started.
pub open spec fn status_detail(w: WorkflowView, now: Timestamp) -> Seq<char> {
    match w.status {
        StatusView::Failed { reason } => reason,
        _ => match w.finished_at {
            Some(f) => "finished "@ + ago(f, now),
            None => match w.started_at {
                Some(s) => "started "@ + ago(s, now),
                None => Seq::empty(),
            },
        },
    }
}

/// What is said of a workflow behind its phase.
pub fn workflow_status_detail(wf: &Workflow, now: Timestamp) -> (r: String)
    ensures
        r@ == status_detail(wf@, now),
{
    if let WorkflowStatus::Failed { reason } = &wf.status {
        return reason.clone();
    }
    if let Some(f) = wf.finished_at {
        let when: String = relative_time(f, now);
        return text::cat2("finished ", when.as_str());
    }
    if let Some(s) = wf.started_at {
        let when: String = relative_time(s, now);
        return text::cat2("started ", when.as_str());
    }
    let out: String = String::new();
    proof {
        assert(out@ =~= Seq::<char>::empty());
    }
    out
}

/// A workflow on one line.
pub open spec fn workflow_summary(w: WorkflowView, now: Timestamp) -> Seq<char> {
    let trail = status_detail(w, now);
    if trail.len() == 0 {
        w.name + ": "@ + status_label(w.status)
    } else {
        w.name + ": "@ + status_label(w.status) + " ("@ + trail + ")"@
    }
}

/// A workflow on one line.
pub fn format_workflow_summary(wf: &Workflow, now: Timestamp) -> (r: String)
    ensures
        r@ == workflow_summary(wf@, now),
{
    let label: &str = workflow_status_label(&wf.status);
    let trail: String = workflow_status_detail(wf, now);
    if trail.as_str().unicode_len() == 0 {
        text::cat3(wf.name.as_str(), ": ", label)
    } else {
        text::cat6(wf.name.as_str(), ": ", label, " (", trail.as_str(), ")")
    }
}

/// A line `name: value`.
pub open spec fn field_line(name: Seq<char>, value: Seq<char>) -> Seq<char> {
    name + ": "@ + value + "\n"@
}

/// A line `name: value` where there is a value.
pub open spec fn optional_line(name: Seq<char>, value: Option<Seq<char>>) -> Seq<char> {
    match value {
        Some(v) => field_line(name, v),
        None => Seq::empty(),
    }
}

/// The lines for a list of prompts.
pub open spec fn prompt_lines(ids: Seq<Seq<char>>) -> Seq<char>
    decreases ids.len(),
{
    if ids.len() == 0 {
        Seq::empty()
    } else {
        prompt_lines(ids.drop_last()) + ("  - "@ + ids.last() + "\n"@)
    }
}

/// All that is stored of a workflow.
pub open spec fn workflow_detail(w: WorkflowView) -> Seq<char> {
    field_line("name"@, w.name) + field_line("status"@, status_label(w.status)) + optional_line(
        "reason"@,
        match w.status {
            StatusView::Failed { reason } => Some(reason),
            _ => None,
        },
    ) + field_line(
        "priority"@,
        text::signed_decimal(
            match w.metadata.priority {
                Some(p) => p as int,
                None => 0,
            },
        ),
    ) + optional_line("worktree_branch"@, w.metadata.worktree_branch) + optional_line(
        "depends_on"@,
        if w.metadata.depends_on.len() == 0 {
            None
        } else {
            Some(text::joined(w.metadata.depends_on, ", "@))
        },
    ) + field_line("queued_at"@, shown_time(w.queued_at)) + field_line(
        "started_at"@,
        shown_time(w.started_at),
    ) + field_line("finished_at"@, shown_time(w.finished_at)) + (if w.prompt_ids.len() == 0 {
        Seq::empty()
    } else {
        "prompts:\n"@ + prompt_lines(w.prompt_ids)
    })
}

/// Put a line `name: value` behind `out`.
fn add_field(out: &mut String, name: &str, value: &str)
    ensures
        final(out)@ == old(out)@ + field_line(name@, value@),
{
    out.append(name);
    out.append(": ");
    out.append(value);
    out.append("\n");
    proof {
        assert(out@ =~= old(out)@ + field_line(name@, value@));
    }
}

/// Put the lines for a list of prompts behind `out`.
fn add_prompts(out: &mut String, ids: &Vec<String>)
    ensures
        final(out)@ == old(out)@ + prompt_lines(text::texts(ids@)),
{
    let ghost all = text::texts(ids@);
    let mut i: usize = 0;
    proof {
        assert(out@ =~= old(out)@ + prompt_lines(all.take(0)));
    }
    while i < ids.len()
        invariant
            i <= ids.len(),
            all == text::texts(ids@),
            out@ == old(out)@ + prompt_lines(all.take(i as int)),
        decreases ids.len() - i,
    {
        let line: String = text::cat3("  - ", ids[i].as_str(), "\n");
        out.append(line.as_str());
        proof {
            assert(all.take(i + 1).drop_last() =~= all.take(i as int));
            assert(all.take(i + 1).last() == ids@[i as int]@);
            assert(out@ =~= old(out)@ + prompt_lines(all.take(i + 1)));
        }
        i = i + 1;
    }
    proof {
        assert(all.take(all.len() as int) =~= all);
    }
}

/// All that is stored of a workflow.
pub fn format_workflow_detail(wf: &Workflow) -> (r: String)
    ensures
        r@ == workflow_detail(wf@),
{
    let mut s: String = String::new();
    add_field(&mut s, "name", wf.name.as_str());
    add_field(&mut s, "status", workflow_status_label(&wf.status));
    if let WorkflowStatus::Failed { reason } = &wf.status {
        add_field(&mut s, "reason", reason.as_str());
    }
    let priority: i32 = match wf.metadata.priority {
        Some(p) => p,
        None => 0,
    };
    add_field(&mut s, "priority", text::signed_number(priority as i64).as_str());
    if let Some(b) = &wf.metadata.worktree_branch {
        add_field(&mut s, "worktree_branch", b.as_str());
    }
    if wf.metadata.depends_on.len() > 0 {
        add_field(&mut s, "depends_on", text::join(&wf.metadata.depends_on, ", ").as_str());
    }
    add_field(&mut s, "queued_at", iso_or_dash(wf.queued_at).as_str());
    add_field(&mut s, "started_at", iso_or_dash(wf.started_at).as_str());
    add_field(&mut s, "finished_at", iso_or_dash(wf.finished_at).as_str());
    if wf.prompt_ids.len() > 0 {
        s.append("prompts:\n");
        add_prompts(&mut s, &wf.prompt_ids);
    }
    proof {
        assert(s@ =~= workflow_detail(wf@));
    }
    s
}

/// The first workflow with the name `name`.
pub open spec fn workflow_called(ws: Seq<WorkflowView>, name: Seq<char>) -> Option<WorkflowView>
    decreases ws.len(),
{
    if ws.len() == 0 {
        None
    } else if ws[0].name == name {
        Some(ws[0])
    } else {
        workflow_called(ws.skip(1), name)
    }
}

/// Workflows, one to a line.
pub open spec fn summary_lines(ws: Seq<WorkflowView>, now: Timestamp) -> Seq<char>
    decreases ws.len(),
{
    if ws.len() == 0 {
        Seq::empty()
    } else {
        summary_lines(ws.drop_last(), now) + workflow_summary(ws.last(), now) + "\n"@
    }
}

/// Workflows, one to a line.
fn format_summaries(ws: &Vec<Workflow>, now: Timestamp) -> (r: String)
    ensures
        r@ == summary_lines(workflow_views(ws@), now),
{
    let ghost all = workflow_views(ws@);
    let mut out: String = String::new();
    let mut i: usize = 0;
    proof {
        assert(out@ =~= summary_lines(all.take(0), now));
    }
    while i < ws.len()
        invariant
            i <= ws.len(),
            all == workflow_views(ws@),
            out@ == summary_lines(all.take(i as int), now),
        decreases ws.len() - i,
    {
        out.append(format_workflow_summary(&ws[i], now).as_str());
        out.append("\n");
        proof {
            assert(all.take(i + 1).drop_last() =~= all.take(i as int));
            assert(all.take(i + 1).last() == ws@[i as int]@);
        }
        i = i + 1;
    }
    proof {
        assert(all.take(all.len() as int) =~= all);
    }
    out
}

/// The place of the first workflow with the name `name`.
pub fn find_workflow(ws: &Vec<Workflow>, name: &str) -> (r: Option<usize>)
    ensures
        match r {
            Some(i) => i < ws.len() && workflow_called(workflow_views(ws@), name@) == Some(
                ws@[i as int]@,
            ),
            None => workflow_called(workflow_views(ws@), name@) is None,
        },
{
    let ghost all = workflow_views(ws@);
    let mut i: usize = 0;
    proof {
        assert(all.skip(0) =~= all);
    }
    while i < ws.len()
        invariant
            i <= ws.len(),
            all == workflow_views(ws@),
            workflow_called(all, name@) == workflow_called(all.skip(i as int), name@),
        decreases ws.len() - i,
    {
        proof {
            assert(all.skip(i as int)[0] == ws@[i as int]@);
            assert(all.skip(i as int).skip(1) =~= all.skip(i + 1));
        }
        if text::same(ws[i].name.as_str(), name) {
            return Some(i);
        }
        i = i + 1;
    }
    None
}

/// Whether `r` shows the workflow of that name, or all of them.
pub open spec fn status_shown(
    r: Result<CommandOutput, CommandError>,
    name: Option<Seq<char>>,
    ws: Seq<WorkflowView>,
    now: Timestamp,
) -> bool {
    match name {
        Some(name) => match workflow_called(ws, name) {
            Some(w) => r matches Ok(o) && prints(o, workflow_detail(w)),
            None => r matches Err(e) && e@ == CommandErrorView::NoSuchWorkflow(name),
        },
        None => {
            &&& r matches Ok(o)
            &&& prints(
                o,
                if ws.len() == 0 {
                    "(no workflows in ~/.local/share/clhorde/workflows/)\n"@
                } else {
                    summary_lines(ws, now)
                },
            )
        },
    }
}

/// Show one of the stored workflows, or all of them.
pub fn status(args: &StatusArgs, stored: &Vec<Workflow>, now: Timestamp) -> (r: Result<
    CommandOutput,
    CommandError,
>)
    ensures
        status_shown(r, text::text_option(args.name), workflow_views(stored@), now),
{
    match &args.name {
        Some(name) => match find_workflow(stored, name.as_str()) {
            Some(i) => Ok(CommandOutput::ok(format_workflow_detail(&stored[i]))),
            None => Err(CommandError::NoSuchWorkflow(name.clone())),
        },
        None => {
            if stored.len() == 0 {
                return Ok(
                    CommandOutput::ok(
                        text::owned("(no workflows in ~/.local/share/clhorde/workflows/)\n"),
                    ),
                );
            }
            Ok(CommandOutput::ok(format_summaries(stored, now)))
        },
    }
}

// ---------------------------------------------------------------------
// templates
// ---------------------------------------------------------------------

/// The directory of the prompt templates, if it is known.
fn templates_dir(dir: Option<String>) -> (r: Result<String, CommandError>)
    ensures
        match dir {
            Some(d) => r matches Ok(x) && x@ == d@,
            None => r matches Err(e) && e@ == CommandErrorView::Other(
                "cannot resolve user templates directory"@,
            ),
        },
{
    match dir {
        Some(d) => Ok(d),
        None => Err(CommandError::Other(text::owned("cannot resolve user templates directory"))),
    }
}

/// Print the directory of the prompt templates.
pub fn templates_path(dir: Option<String>) -> (r: Result<CommandOutput, CommandError>)
    ensures
        match dir {
            Some(d) => r matches Ok(o) && prints(o, d@ + "\n"@),
            None => r matches Err(e) && e@ == CommandErrorView::Other(
                "cannot resolve user templates directory"@,
            ),
        },
{
    match templates_dir(dir) {
        Ok(d) => Ok(CommandOutput::ok(text::cat2(d.as_str(), "\n"))),
        Err(e) => Err(e),
    }
}

/// The first that is given, or `vi`.
pub open spec fn editor_of(
    chosen: Option<Seq<char>>,
    editor: Option<Seq<char>>,
    visual: Option<Seq<char>>,
) -> Seq<char> {
    match chosen {
        Some(e) => e,
        None => match editor {
            Some(e) => e,
            None => match visual {
                Some(e) => e,
                None => "vi"@,
            },
        },
    }
}

/// The editor to open: the one chosen, or `$EDITOR`, or `$VISUAL`, or `vi`.
pub fn pick_editor(chosen: Option<String>, editor: Option<String>, visual: Option<String>) -> (r:
    String)
    ensures
        r@ == editor_of(
            text::text_option(chosen),
            text::text_option(editor),
            text::text_option(visual),
        ),
{
    match chosen {
        Some(e) => e,
        None => match editor {
            Some(e) => e,
            None => match visual {
                Some(e) => e,
                None => text::owned("vi"),
            },
        },
    }
}

/// How a run of an editor went.
#[derive(Debug, PartialEq)]
pub enum EditorRun {
    Success,
    /// It ended with the given status.
    Exited(String),
    /// It did not start.
    NotStarted(String),
}

/// What to print after the editor ran on the directory of the templates.
pub fn templates_edit(path: &str, editor: &str, run: &EditorRun) -> (r: Result<
    CommandOutput,
    CommandError,
>)
    ensures
        match run {
            EditorRun::Success => r matches Ok(o) && prints(
                o,
                "edited templates at "@ + path@ + "\n"@,
            ),
            EditorRun::Exited(status) => r matches Err(e) && e@ == CommandErrorView::Other(
                editor@ + " exited with "@ + status@,
            ),
            EditorRun::NotStarted(m) => r matches Err(e) && e@ == CommandErrorView::Io(m@),
        },
{
    match run {
        EditorRun::Success => Ok(
            CommandOutput::ok(text::cat3("edited templates at ", path, "\n")),
        ),
        EditorRun::Exited(status) => Err(
            CommandError::Other(text::cat3(editor, " exited with ", status.as_str())),
        ),
        EditorRun::NotStarted(m) => Err(CommandError::Io(m.clone())),
    }
}

// ---------------------------------------------------------------------
// Prompts from templates
// ---------------------------------------------------------------------

/// The template for the prompt of a section.
pub const APPLY_SECTION: &'static str = "apply-section";

/// What a list of variables holds.
pub open spec fn variable_views(vs: Seq<(String, String)>) -> Seq<(Seq<char>, Seq<char>)> {
    vs.map_values(|v: (String, String)| (v.0@, v.1@))
}

/// What a template gives with these variables: the text, or the message for
/// the error.
pub uninterp spec fn rendered(
    template: Seq<char>,
    variables: Seq<(Seq<char>, Seq<char>)>,
) -> Result<Seq<char>, Seq<char>>;

/// What a tag may hold to be tame, dashes at its ends aside: names with their
/// dots, numbers, texts in double quotes, comparisons, and filters without
/// arguments.
pub open spec fn tag_char(c: char) -> bool {
    text::alphanumeric(c) || c == '_' || c == '.' || c == '|' || c == '=' || c == '!' || c == '<'
        || c == '>' || c == '"' || c == ' ' || c == '\t' || c == '\r' || c == '\n'
}

/// The longest tag that is tame.
pub const MAX_TAG_LEN: usize = 120;

/// How many tags of a tame template may be statements.
pub const MAX_STATEMENTS: usize = 32;

/// How many of the first `n` characters of a template begin a statement.
pub open spec fn statements(t: Seq<char>, n: nat) -> nat
    decreases n,
{
    if n == 0 {
        0
    } else if text::occurs_at(t, "{%"@, n - 1) {
        statements(t, (n - 1) as nat) + 1
    } else {
        statements(t, (n - 1) as nat)
    }
}

/// Whether every text in double quotes has an end.
pub open spec fn closed_quotes(s: Seq<char>) -> bool
    decreases s.len(),
{
    if s.len() == 0 {
        true
    } else if s.last() == '"' {
        !closed_quotes(s.drop_last())
    } else {
        closed_quotes(s.drop_last())
    }
}

/// Whether a tag begins at `i`.
pub open spec fn tag_at(t: Seq<char>, i: int) -> bool {
    text::occurs_at(t, "{{"@, i) || text::occurs_at(t, "{%"@, i)
}

/// Where the tag that begins at `i` ends.
pub open spec fn tag_end(t: Seq<char>, i: int) -> Option<int> {
    text::find_from(
        t,
        if text::occurs_at(t, "{{"@, i) {
            "}}"@
        } else {
            "%}"@
        },
        i + 2,
    )
}

/// A tag without the dashes that ask for white space to be dropped.
pub open spec fn without_dashes(s: Seq<char>) -> Seq<char> {
    let s = if s.len() > 0 && s[0] == '-' {
        s.skip(1)
    } else {
        s
    };
    if s.len() > 0 && s.last() == '-' {
        s.drop_last()
    } else {
        s
    }
}

/// A tag that neither calls nor computes anything, belongs to no loop and no
/// block, and brings in no template.
pub open spec fn tame_tag(s: Seq<char>) -> bool {
    &&& s.len() <= MAX_TAG_LEN
    &&& forall|k: int| 0 <= k < s.len() ==> tag_char(#[trigger] s[k])
    &&& closed_quotes(s)
    &&& text::find(s, "abs"@) is None
    &&& text::find(s, "addslashes"@) is None
    &&& text::find(s, "json_encode"@) is None
    &&& text::find(s, "endfor"@) is None
    &&& text::find(s, "endblock"@) is None
    &&& text::find(s, "extends"@) is None
    &&& text::find(s, "import"@) is None
    &&& text::find(s, "include"@) is None
}

/// A template that is sure to be rendered or refused, wherever that is done. Of
/// others some never end (macros, blocks and inclusions can reach themselves),
/// some end the program (numbers that overflow, loops over some strings, texts
/// that outgrow the memory), and some do so, or are refused, where the stack is
/// short (long chains and deep nests of tags).
pub open spec fn tame(t: Seq<char>) -> bool {
    &&& statements(t, t.len()) <= MAX_STATEMENTS
    &&& forall|i: int|
        0 <= i < t.len() && #[trigger] tag_at(t, i) ==> (tag_end(t, i) matches Some(j)
            && tame_tag(without_dashes(t.subrange(i + 2, j))))
}

/// Whether none of the words that a tame tag may not hold is in a tag.
fn has_tame_words(tag: &Vec<char>) -> (r: bool)
    ensures
        r == (text::find(tag@, "abs"@) is None && text::find(tag@, "addslashes"@) is None
            && text::find(tag@, "json_encode"@) is None && text::find(tag@, "endfor"@) is None
            && text::find(tag@, "endblock"@) is None && text::find(tag@, "extends"@) is None
            && text::find(tag@, "import"@) is None && text::find(tag@, "include"@) is None),
{
    let calls: bool = text::find_chars(tag, "abs", 0).is_some() || text::find_chars(
        tag,
        "addslashes",
        0,
    ).is_some() || text::find_chars(tag, "json_encode", 0).is_some();
    let nests: bool = text::find_chars(tag, "endfor", 0).is_some() || text::find_chars(
        tag,
        "endblock",
        0,
    ).is_some();
    let brings_in: bool = text::find_chars(tag, "extends", 0).is_some() || text::find_chars(
        tag,
        "import",
        0,
    ).is_some() || text::find_chars(tag, "include", 0).is_some();
    !calls && !nests && !brings_in
}

/// Whether a character may stand in a tame tag.
fn is_tag_char(c: char) -> (r: bool)
    ensures
        r == tag_char(c),
{
    text::is_alphanumeric(c) || c == '_' || c == '.' || c == '|' || c == '=' || c == '!' || c == '<'
        || c == '>' || c == '"' || c == ' ' || c == '\t' || c == '\r' || c == '\n'
}

/// Whether what stands in a tag is tame.
fn is_tame_tag(cs: &Vec<char>, from: usize, to: usize) -> (r: bool)
    requires
        from <= to <= cs.len(),
    ensures
        r == tame_tag(without_dashes(cs@.subrange(from as int, to as int))),
{
    let ghost whole = cs@.subrange(from as int, to as int);
    let first: usize = if from < to && cs[from] == '-' {
        from + 1
    } else {
        from
    };
    let last: usize = if first < to && cs[to - 1] == '-' {
        to - 1
    } else {
        to
    };
    let ghost inner = without_dashes(whole);
    let mut tag: Vec<char> = Vec::new();
    let mut fits: bool = true;
    let mut closed: bool = true;
    let mut k: usize = first;
    proof {
        assert(inner =~= cs@.subrange(first as int, last as int));
    }
    while k < last
        invariant
            first <= k <= last <= cs.len(),
            tag@ == cs@.subrange(first as int, k as int),
            fits == forall|m: int| 0 <= m < tag@.len() ==> tag_char(#[trigger] tag@[m]),
            closed == closed_quotes(tag@),
        decreases last - k,
    {
        let c: char = cs[k];
        let ghost before = tag@;
        tag.push(c);
        let c_fits: bool = is_tag_char(c);
        proof {
            assert(tag@[k - first] == c);
            assert forall|m: int| 0 <= m < before.len() implies before[m] == #[trigger] tag@[m] by {}
            assert(tag@ =~= cs@.subrange(first as int, k + 1));
            assert(tag@.drop_last() =~= before);
            if fits && c_fits {
                assert forall|m: int| 0 <= m < tag@.len() implies tag_char(#[trigger] tag@[m]) by {
                    if m < before.len() {
                        assert(tag_char(before[m]));
                    }
                }
            }
        }
        fits = fits && c_fits;
        if c == '"' {
            closed = !closed;
        }
        k = k + 1;
    }
    tag.len() <= MAX_TAG_LEN && fits && closed && has_tame_words(&tag)
}

/// How many statements a template has.
fn count_statements(cs: &Vec<char>) -> (r: usize)
    ensures
        r == statements(cs@, cs@.len()),
{
    let mut count: usize = 0;
    let mut i: usize = 0;
    while i < cs.len()
        invariant
            i <= cs.len(),
            count <= i,
            count == statements(cs@, i as nat),
        decreases cs.len() - i,
    {
        if text::chars_occur_at(cs, "{%", i) {
            count = count + 1;
        }
        i = i + 1;
    }
    count
}

/// Whether a template is tame.
pub fn is_tame(template: &str) -> (r: bool)
    ensures
        r == tame(template@),
{
    let cs: Vec<char> = text::chars_of(template);
    if count_statements(&cs) > MAX_STATEMENTS {
        return false;
    }
    let mut i: usize = 0;
    proof {
        reveal_strlit("{{");
        reveal_strlit("{%");
    }
    while i < cs.len()
        invariant
            cs@ == template@,
            "{{"@.len() == 2,
            "{%"@.len() == 2,
            statements(cs@, cs@.len()) <= MAX_STATEMENTS,
            i <= cs.len(),
            forall|h: int|
                0 <= h < i && #[trigger] tag_at(cs@, h) ==> (tag_end(cs@, h) matches Some(j)
                    && tame_tag(without_dashes(cs@.subrange(h + 2, j)))),
        decreases cs.len() - i,
    {
        let variable: bool = text::chars_occur_at(&cs, "{{", i);
        if variable || text::chars_occur_at(&cs, "{%", i) {
            assert(tag_at(cs@, i as int));
            let close: &str = if variable {
                "}}"
            } else {
                "%}"
            };
            match text::find_chars(&cs, close, i + 2) {
                None => {
                    return false;
                },
                Some(j) => {
                    if !is_tame_tag(&cs, i + 2, j) {
                        return false;
                    }
                },
            }
        }
        i = i + 1;
    }
    true
}

/// `tera::Tera::one_off`, without escaping: the template rendered with the
/// variables. What the language of templates means is left to the `tera`
/// crate; the same template and variables always give the same result, but for
/// a template that dumps its variables, whose order is left open: of that
/// nothing is said. The parser gives up where less than 64 KiB of the stack are
/// left; a tame template takes a small part of what a thread has.
#[verifier::external_body]
fn render(template: &str, variables: &Vec<(String, String)>) -> (r: Result<String, String>)
    requires
        tame(template@),
    ensures
        text::find(template@, "__tera_context"@) is None ==> (match r {
            Ok(s) => Ok(s@),
            Err(e) => Err(e@),
        }) == rendered(template@, variable_views(variables@)),
{
    let mut context = tera::Context::new();
    for (name, value) in variables.iter() {
        context.insert(name.as_str(), value);
    }
    tera::Tera::one_off(template, &context, false).map_err(|e| e.to_string())
}

/// What rendering comes to: the prompt, or the error.
pub open spec fn prompt_rendered(
    r: Result<String, CommandError>,
    out: Result<Seq<char>, Seq<char>>,
) -> bool {
    match out {
        Ok(s) => r matches Ok(p) && p@ == s,
        Err(e) => r matches Err(x) && x@ == CommandErrorView::Render(e),
    }
}

/// The prompt that a template gives.
pub fn render_prompt(template: &str, variables: &Vec<(String, String)>) -> (r: Result<
    String,
    CommandError,
>)
    requires
        tame(template@),
    ensures
        r matches Err(e) ==> e@ is Render,
        text::find(template@, "__tera_context"@) is None ==> prompt_rendered(
            r,
            rendered(template@, variable_views(variables@)),
        ),
{
    match render(template, variables) {
        Ok(s) => Ok(s),
        Err(e) => Err(CommandError::Render(e)),
    }
}

/// The prompt that has a change archived, from the text of its template.
pub fn archive_prompt(template: &str, name: &str) -> (r: Result<String, CommandError>)
    requires
        tame(template@),
    ensures
        r matches Err(e) ==> e@ is Render,
        text::find(template@, "__tera_context"@) is None ==> prompt_rendered(
            r,
            rendered(template@, seq![("change_name"@, name@)]),
        ),
{
    let variables: Vec<(String, String)> = vec![(text::owned("change_name"), text::owned(name))];
    proof {
        assert(variable_views(variables@) =~= seq![("change_name"@, name@)]);
    }
    render_prompt(template, &variables)
}

/// The prompt that has a change proposed, from the text of its template.
pub fn propose_prompt(template: &str, idea: &str) -> (r: Result<String, CommandError>)
    requires
        tame(template@),
    ensures
        r matches Err(e) ==> e@ is Render,
        text::find(template@, "__tera_context"@) is None ==> prompt_rendered(
            r,
            rendered(template@, seq![("idea"@, idea@)]),
        ),
{
    let variables: Vec<(String, String)> = vec![(text::owned("idea"), text::owned(idea))];
    proof {
        assert(variable_views(variables@) =~= seq![("idea"@, idea@)]);
    }
    render_prompt(template, &variables)
}

/// The variables for the prompt of a node.
pub open spec fn apply_variables(
    root: Seq<char>,
    name: Seq<char>,
    id: Seq<char>,
    label: Seq<char>,
    tasks: Seq<char>,
) -> Seq<(Seq<char>, Seq<char>)> {
    seq![
        ("change_name"@, name),
        ("change_dir"@, root + "/openspec/changes/"@ + name),
        ("section_id"@, id),
        ("section_title"@, label),
        ("tasks_block"@, tasks),
    ]
}

/// The variables for the prompt of a node.
pub fn apply_context(root: &str, change_name: &str, node: &DagNode, tasks_block: &str) -> (r: Vec<
    (String, String),
>)
    ensures
        variable_views(r@) == apply_variables(
            root@,
            change_name@,
            node.id@,
            node.label@,
            tasks_block@,
        ),
{
    let r: Vec<(String, String)> = vec![
        (text::owned("change_name"), text::owned(change_name)),
        (text::owned("change_dir"), text::cat3(root, "/openspec/changes/", change_name)),
        (text::owned("section_id"), node.id.clone()),
        (text::owned("section_title"), node.label.clone()),
        (text::owned("tasks_block"), text::owned(tasks_block)),
    ];
    proof {
        assert(variable_views(r@) =~= apply_variables(
            root@,
            change_name@,
            node.id@,
            node.label@,
            tasks_block@,
        ));
    }
    r
}

/// The name of the template for a node.
pub fn template_of(node: &DagNode) -> (r: &str)
    ensures
        r@ == match node.prompt_template {
            Some(t) => t@,
            None => APPLY_SECTION@,
        },
{
    match &node.prompt_template {
        Some(t) => t.as_str(),
        None => APPLY_SECTION,
    }
}

/// The prompt for a node, from the text of its template.
pub fn render_apply_template(
    template: &str,
    root: &str,
    change_name: &str,
    node: &DagNode,
    tasks_block: &str,
) -> (r: Result<String, CommandError>)
    requires
        tame(template@),
    ensures
        r matches Err(e) ==> e@ is Render,
        text::find(template@, "__tera_context"@) is None ==> prompt_rendered(
            r,
            rendered(
                template@,
                apply_variables(root@, change_name@, node.id@, node.label@, tasks_block@),
            ),
        ),
{
    let variables: Vec<(String, String)> = apply_context(root, change_name, node, tasks_block);
    render_prompt(template, &variables)
}

// ---------------------------------------------------------------------
// apply, archive, propose, cancel, retry
// ---------------------------------------------------------------------

/// What to print after `count` prompts of a workflow were dispatched.
pub fn apply_output(name: &str, count: usize) -> (r: CommandOutput)
    ensures
        prints(
            r,
            if count == 0 {
                name@ + ": nothing to dispatch\n"@
            } else {
                name@ + ": dispatched "@ + text::decimal(count as nat) + " prompt(s)\n"@
            },
        ),
{
    if count == 0 {
        return CommandOutput::ok(text::cat2(name, ": nothing to dispatch\n"));
    }
    let n: String = text::number(count as u128);
    CommandOutput::ok(text::cat4(name, ": dispatched ", n.as_str(), " prompt(s)\n"))
}

/// The prompt of a phase of a workflow, which runs once, in the worktree of
/// the workflow.
pub open spec fn phase_prompt(
    root: Seq<char>,
    name: Seq<char>,
    tag: Seq<char>,
    prompt: Seq<char>,
) -> Submission {
    Submission {
        text: prompt,
        cwd: Some(root),
        mode: "oneshot"@,
        worktree: true,
        tags: seq![tag],
        depends_on: Seq::empty(),
        worktree_id: Some(name),
    }
}

/// The request for the prompt of a workflow with the given tag.
fn workflow_request(root: &str, name: &str, tag: String, prompt: String) -> (r: ClientRequest)
    ensures
        submission(r) == Some(phase_prompt(root@, name@, tag@, prompt@)),
{
    let tags: Vec<String> = vec![tag];
    let depends_on: Vec<String> = Vec::new();
    proof {
        assert(text::texts(tags@) =~= seq![tag@]);
        assert(text::texts(depends_on@) =~= Seq::<Seq<char>>::empty());
    }
    ClientRequest::SubmitPrompt {
        text: prompt,
        cwd: Some(text::owned(root)),
        mode: text::owned("oneshot"),
        worktree: true,
        tags,
        depends_on,
        worktree_id: Some(text::owned(name)),
    }
}

/// The tag of a phase of a workflow.
pub open spec fn phase_tag(name: Seq<char>, phase: Seq<char>) -> Seq<char> {
    "clhorde-scheduler/wf="@ + name + "/phase="@ + phase
}

/// The request for the prompt of a phase of a workflow.
pub fn build_phase_request(root: &str, name: &str, phase: &str, prompt: String) -> (r:
    ClientRequest)
    ensures
        submission(r) == Some(phase_prompt(root@, name@, phase_tag(name@, phase@), prompt@)),
{
    let tag: String = text::cat4("clhorde-scheduler/wf=", name, "/phase=", phase);
    workflow_request(root, name, tag, prompt)
}

/// The request that has a change archived, and what to print.
pub fn archive(args: &NameArg, root: &str, prompt: String) -> (r: (ClientRequest, CommandOutput))
    ensures
        submission(r.0) == Some(
            phase_prompt(root@, args.name@, phase_tag(args.name@, "archive"@), prompt@),
        ),
        prints(r.1, "archive prompt dispatched for: "@ + args.name@ + "\n"@),
{
    let request: ClientRequest = build_phase_request(root, args.name.as_str(), "archive", prompt);
    let output = CommandOutput::ok(
        text::cat3("archive prompt dispatched for: ", args.name.as_str(), "\n"),
    );
    (request, output)
}

/// Whether `r` is the idea that the words spell, if it is more than white space.
pub open spec fn idea_is(r: Result<String, CommandError>, words: Seq<Seq<char>>) -> bool {
    let idea = text::joined(words, " "@);
    if text::trimmed(idea).len() == 0 {
        r matches Err(e) && e@ == CommandErrorView::Other("idea must not be empty"@)
    } else {
        r matches Ok(s) && s@ == idea
    }
}

/// The idea that the words of a command spell, if it is more than white space.
pub fn proposed_idea(args: &ProposeArgs) -> (r: Result<String, CommandError>)
    ensures
        idea_is(r, text::texts(args.idea@)),
{
    let idea: String = text::join(&args.idea, " ");
    if text::trim(idea.as_str()).unicode_len() == 0 {
        return Err(CommandError::Other(text::owned("idea must not be empty")));
    }
    Ok(idea)
}

/// The prompt that has a change proposed.
pub open spec fn proposal(root: Seq<char>, prompt: Seq<char>) -> Submission {
    Submission {
        text: prompt,
        cwd: Some(root),
        mode: "oneshot"@,
        worktree: false,
        tags: seq!["clhorde-scheduler/phase=propose"@],
        depends_on: Seq::empty(),
        worktree_id: None,
    }
}

/// The request that has a change proposed, and what to print.
pub fn propose(root: &str, idea: &str, prompt: String) -> (r: (ClientRequest, CommandOutput))
    ensures
        submission(r.0) == Some(proposal(root@, prompt@)),
        prints(r.1, "proposing: "@ + idea@ + "\n"@),
{
    let tags: Vec<String> = vec![text::owned("clhorde-scheduler/phase=propose")];
    let depends_on: Vec<String> = Vec::new();
    proof {
        assert(text::texts(tags@) =~= seq!["clhorde-scheduler/phase=propose"@]);
        assert(text::texts(depends_on@) =~= Seq::<Seq<char>>::empty());
    }
    let request = ClientRequest::SubmitPrompt {
        text: prompt,
        cwd: Some(text::owned(root)),
        mode: text::owned("oneshot"),
        worktree: false,
        tags,
        depends_on,
        worktree_id: None,
    };
    (request, CommandOutput::ok(text::cat3("proposing: ", idea, "\n")))
}

/// The phase that a workflow has after it was cancelled: a queued one is a
/// draft again, one that runs is cancelled, any other stays as it is.
pub open spec fn cancelled_status(s: StatusView) -> StatusView {
    match s {
        StatusView::Queued => StatusView::Drafted,
        StatusView::Implementing | StatusView::Verifying | StatusView::Archiving => {
            StatusView::Cancelled
        },
        _ => s,
    }
}

/// What is left to do after a workflow was cancelled.
#[derive(Debug, PartialEq)]
pub struct Cancellation {
    /// The workflow to store, if it changed.
    pub save: Option<Workflow>,
    pub output: CommandOutput,
}

/// Whether `r` is what cancelling the workflow `name` comes to, by what is
/// stored of it.
pub open spec fn cancellation(
    r: Cancellation,
    name: Seq<char>,
    stored: Option<Workflow>,
) -> bool {
    match stored {
        None => {
            &&& r.save is None
            &&& prints(r.output, "cancelled (no persisted workflow): "@ + name + "\n"@)
        },
        Some(w) => {
            let next = cancelled_status(w@.status);
            &&& match r.save {
                Some(x) => next != w@.status && x@ == (WorkflowView { status: next, ..w@ }),
                None => next == w@.status,
            }
            &&& prints(
                r.output,
                "cancelled: "@ + name + " (status now "@ + status_label(next) + ")\n"@,
            )
        },
    }
}

/// Cancel a workflow whose marker is gone; `stored` is what is stored of it.
pub fn cancel(args: &NameArg, stored: Option<Workflow>) -> (r: Cancellation)
    ensures
        cancellation(r, args.name@, stored),
{
    let mut wf: Workflow = match stored {
        Some(w) => w,
        None => {
            return Cancellation {
                save: None,
                output: CommandOutput::ok(
                    text::cat3("cancelled (no persisted workflow): ", args.name.as_str(), "\n"),
                ),
            };
        },
    };
    let updated: bool = match wf.status {
        WorkflowStatus::Queued => wf.unqueue().is_ok(),
        WorkflowStatus::Implementing | WorkflowStatus::Verifying
        | WorkflowStatus::Archiving => wf.cancel().is_ok(),
        _ => false,
    };
    let output: CommandOutput = CommandOutput::ok(
        text::cat5(
            "cancelled: ",
            args.name.as_str(),
            " (status now ",
            workflow_status_label(&wf.status),
            ")\n",
        ),
    );
    if updated {
        Cancellation { save: Some(wf), output }
    } else {
        Cancellation { save: None, output }
    }
}

/// Cancelling twice comes to the same as cancelling once.
pub proof fn cancelling_settles(s: StatusView)
    ensures
        cancelled_status(cancelled_status(s)) == cancelled_status(s),
{
}

/// The section to retry and the workflow it belongs to.
#[derive(Debug, PartialEq)]
pub struct RetryStart {
    pub section: String,
    pub workflow: Workflow,
    /// Whether the workflow changed and is to be stored.
    pub save: bool,
}

/// Whether `r` is what making the workflow `name` ready for a retry comes to,
/// by what is stored of it.
pub open spec fn retry_started(
    r: Result<RetryStart, CommandError>,
    name: Seq<char>,
    section: Option<String>,
    stored: Option<Workflow>,
) -> bool {
    match section {
        None => r matches Err(e) && e@ == CommandErrorView::Other(
            "retry requires --section <id>"@,
        ),
        Some(section) => match stored {
            None => r matches Err(e) && e@ == CommandErrorView::NoSuchWorkflow(name),
            Some(w) => if w@.status is Archived || w@.status is Cancelled {
                r matches Err(e) && e@ == (CommandErrorView::BadState {
                    name,
                    what: "cannot retry a terminal workflow"@,
                })
            } else {
                &&& r matches Ok(s)
                &&& s.section@ == section@
                &&& s.save == (w@.status is Failed)
                &&& s.workflow@ == if w@.status is Failed {
                    WorkflowView { status: StatusView::Implementing, ..w@ }
                } else {
                    w@
                }
            },
        },
    }
}

/// Make a workflow ready for a retry: a failed one runs again, one that came
/// to its end otherwise is refused.
pub fn retry_start(args: &RetryArgs, stored: Option<Workflow>) -> (r: Result<
    RetryStart,
    CommandError,
>)
    ensures
        retry_started(r, args.name@, args.section, stored),
{
    let section: String = match &args.section {
        Some(s) => s.clone(),
        None => {
            return Err(CommandError::Other(text::owned("retry requires --section <id>")));
        },
    };
    let mut wf: Workflow = match stored {
        Some(w) => w,
        None => {
            return Err(CommandError::NoSuchWorkflow(args.name.clone()));
        },
    };
    match wf.status {
        WorkflowStatus::Failed { .. } => {
            wf.status = WorkflowStatus::Implementing;
            Ok(RetryStart { section, workflow: wf, save: true })
        },
        WorkflowStatus::Archived | WorkflowStatus::Cancelled => Err(
            CommandError::BadState {
                name: args.name.clone(),
                what: text::owned("cannot retry a terminal workflow"),
            },
        ),
        _ => Ok(RetryStart { section, workflow: wf, save: false }),
    }
}

/// A task as a line of a list.
pub open spec fn task_line(t: AnnotatedTaskView) -> Seq<char> {
    "- "@ + (if t.task.done {
        "[x]"@
    } else {
        "[ ]"@
    }) + " "@ + t.task.id + " "@ + t.task.text
}

/// The tasks of the first section with the id `id`, one to a line.
pub open spec fn tasks_block_of(sections: Seq<AnnotatedSectionView>, id: Seq<char>) -> Seq<char>
    decreases sections.len(),
{
    if sections.len() == 0 {
        Seq::empty()
    } else if sections[0].section.id == id {
        text::joined(sections[0].items.map_values(|t: AnnotatedTaskView| task_line(t)), "\n"@)
    } else {
        tasks_block_of(sections.skip(1), id)
    }
}

/// The tasks of a section, one to a line.
fn task_lines(items: &Vec<AnnotatedTask>) -> (r: String)
    ensures
        r@ == text::joined(
            annotated_items(items@).map_values(|t: AnnotatedTaskView| task_line(t)),
            "\n"@,
        ),
{
    let ghost all = annotated_items(items@).map_values(|t: AnnotatedTaskView| task_line(t));
    let mut lines: Vec<String> = Vec::new();
    let mut i: usize = 0;
    while i < items.len()
        invariant
            i <= items.len(),
            all == annotated_items(items@).map_values(|t: AnnotatedTaskView| task_line(t)),
            text::texts(lines@) == all.take(i as int),
        decreases items.len() - i,
    {
        let t: &AnnotatedTask = &items[i];
        let mark: &str = if t.task.done {
            "[x]"
        } else {
            "[ ]"
        };
        let ghost before = lines@;
        lines.push(
            text::cat6("- ", mark, " ", t.task.id.as_str(), " ", t.task.text.as_str()),
        );
        proof {
            assert(text::texts(lines@) =~= text::texts(before).push(lines@.last()@));
            assert(all.take(i + 1) =~= all.take(i as int).push(all[i as int]));
        }
        i = i + 1;
    }
    proof {
        assert(all.take(all.len() as int) =~= all);
    }
    text::join(&lines, "\n")
}

/// The tasks of the first section with the id `id`, one to a line.
pub fn tasks_block(sections: &Vec<AnnotatedSection>, id: &str) -> (r: String)
    ensures
        r@ == tasks_block_of(annotated_views(sections@), id@),
{
    let ghost all = annotated_views(sections@);
    let mut i: usize = 0;
    proof {
        assert(all.skip(0) =~= all);
    }
    while i < sections.len()
        invariant
            i <= sections.len(),
            all == annotated_views(sections@),
            tasks_block_of(all, id@) == tasks_block_of(all.skip(i as int), id@),
        decreases sections.len() - i,
    {
        proof {
            assert(all.skip(i as int)[0] == sections@[i as int]@);
            assert(all.skip(i as int).skip(1) =~= all.skip(i + 1));
        }
        if text::same(sections[i].section.id.as_str(), id) {
            return task_lines(&sections[i].items);
        }
        i = i + 1;
    }
    let out: String = String::new();
    proof {
        assert(out@ =~= Seq::<char>::empty());
    }
    out
}

/// The annotated sections of a task list.
pub open spec fn annotated_tasks(tasks_md: Seq<char>) -> Seq<AnnotatedSectionView> {
    tasks_parser::parsed(text::lines_of(tasks_md)).0.map_values(
        |s: tasks_parser::SectionView| annotated(s),
    )
}

/// The first node with the id `id`.
pub open spec fn node_called(nodes: Seq<DagNodeView>, id: Seq<char>) -> Option<DagNodeView>
    decreases nodes.len(),
{
    if nodes.len() == 0 {
        None
    } else if nodes[0].id == id {
        Some(nodes[0])
    } else {
        node_called(nodes.skip(1), id)
    }
}

/// The node to retry and the list of its tasks.
#[derive(Debug, PartialEq)]
pub struct RetryNode {
    pub node: DagNode,
    pub tasks_block: String,
}

/// Whether `r` is what a retry of `id` in the sections comes to: the node and
/// its tasks, or why there is no such node.
pub open spec fn retried(
    r: Result<RetryNode, CommandError>,
    sections: Seq<AnnotatedSectionView>,
    id: Seq<char>,
) -> bool {
    match dag::nodes_of(sections) {
        Err(e) => r matches Err(x) && x@ == CommandErrorView::Other("dag: "@ + dag::error_text(e)),
        Ok(ns) => if dag::cyclic(ns) {
            exists|involved: Seq<Seq<char>>| #[trigger]
                dag::names_cycle(ns, involved) && (r matches Err(x) && x@
                    == CommandErrorView::Other(
                    "dag: "@ + dag::error_text(dag::DagErrorView::Cycle { involved }),
                ))
        } else {
            match node_called(ns, id) {
                Some(n) => r matches Ok(x) && x.node@ == n && x.tasks_block@ == tasks_block_of(
                    sections,
                    id,
                ),
                None => r matches Err(x) && x@ == CommandErrorView::Other("no node "@ + id),
            }
        },
    }
}

/// The place of the first node with the id `id`.
fn find_node(nodes: &Vec<DagNode>, id: &str) -> (r: Option<usize>)
    ensures
        match r {
            Some(i) => i < nodes.len() && node_called(dag::node_views(nodes@), id@) == Some(
                nodes@[i as int]@,
            ) && nodes@[i as int].id@ == id@,
            None => node_called(dag::node_views(nodes@), id@) is None,
        },
{
    let ghost all = dag::node_views(nodes@);
    let mut i: usize = 0;
    proof {
        assert(all.skip(0) =~= all);
    }
    while i < nodes.len()
        invariant
            i <= nodes.len(),
            all == dag::node_views(nodes@),
            node_called(all, id@) == node_called(all.skip(i as int), id@),
        decreases nodes.len() - i,
    {
        proof {
            assert(all.skip(i as int)[0] == nodes@[i as int]@);
            assert(all.skip(i as int).skip(1) =~= all.skip(i + 1));
        }
        if text::same(nodes[i].id.as_str(), id) {
            return Some(i);
        }
        i = i + 1;
    }
    None
}

/// The node of a task list to retry, and the list of its tasks.
pub fn retry_node(tasks_md: &str, section_id: &str) -> (r: Result<RetryNode, CommandError>)
    ensures
        retried(r, annotated_tasks(tasks_md@), section_id@),
{
    let sections: Vec<AnnotatedSection> = annotate(tasks_parser::parse(tasks_md));
    proof {
        assert(annotated_views(sections@) == annotated_tasks(tasks_md@));
    }
    match dag::build(sections.as_slice()) {
        Err(e) => {
            let message: String = e.to_text();
            Err(CommandError::Other(text::cat2("dag: ", message.as_str())))
        },
        Ok(built) => {
            let mut nodes: Vec<DagNode> = built.nodes;
            match find_node(&nodes, section_id) {
                Some(i) => {
                    let node: DagNode = nodes.remove(i);
                    let tasks: String = tasks_block(&sections, node.id.as_str());
                    Ok(RetryNode { node, tasks_block: tasks })
                },
                None => Err(CommandError::Other(text::cat2("no node ", section_id))),
            }
        },
    }
}

/// The request that dispatches a node again, and what to print.
pub fn retry(args: &RetryArgs, section: &str, root: &str, node: &DagNode, prompt: String) -> (r: (
    ClientRequest,
    CommandOutput,
))
    ensures
        submission(r.0) == Some(
            phase_prompt(
                root@,
                args.name@,
                phase_tag(args.name@, "apply"@) + "/node="@ + node.id@,
                prompt@,
            ),
        ),
        prints(r.1, "retry dispatched: "@ + args.name@ + " section "@ + section@ + "\n"@),
{
    let tag: String = text::cat6(
        "clhorde-scheduler/wf=",
        args.name.as_str(),
        "/phase=",
        "apply",
        "/node=",
        node.id.as_str(),
    );
    let request: ClientRequest = workflow_request(root, args.name.as_str(), tag, prompt);
    let output = CommandOutput::ok(
        text::cat5("retry dispatched: ", args.name.as_str(), " section ", section, "\n"),
    );
    (request, output)
}

// ---------------------------------------------------------------------
// What the commands come to
// ---------------------------------------------------------------------

/// A change is queued exactly where it has a directory, by a marker in that
/// directory and nowhere else, which tells the priority, if any.
pub proof fn queueing_marks_the_change(
    r: Result<MarkerWrite, CommandError>,
    name: Seq<char>,
    priority: Option<i32>,
    root: Seq<char>,
    is_dir: bool,
)
    requires
        queued(r, name, priority, root, is_dir),
    ensures
        r is Ok <==> is_dir,
        r matches Err(e) ==> (e matches CommandError::NoSuchChange(n) && n@ == name),
        r matches Ok(w) ==> {
            &&& w.path@ == crate::paths::joined_path(
                crate::paths::joined_path(
                    crate::paths::joined_path(crate::paths::joined_path(root, "openspec"@), "changes"@),
                    name,
                ),
                ".clhorde-ready"@,
            )
            &&& priority is None ==> w.body@.len() == 0
            &&& priority matches Some(p) ==> w.body@ == "priority = "@ + text::signed_decimal(
                p as int,
            ) + "\n"@
            &&& w.output.stdout@ == "queued: "@ + name + "\n"@
        },
{
}

/// The drafts are listed by name, one to a line; a change is a draft exactly
/// where it is not queued.
pub proof fn drafts_are_those_not_queued<'a>(
    changes: Seq<DiscoveredChange>,
    c: &'a DiscoveredChange,
)
    ensures
        draft_changes(changes).contains(c) <==> changes.contains(*c) && !(c.status is Queued),
    decreases changes.len(),
{
    if changes.len() > 0 {
        let front = changes.drop_last();
        let n = changes.len() - 1;
        let before = draft_changes(front);
        let all = draft_changes(changes);
        drafts_are_those_not_queued(front, c);
        if front.contains(*c) {
            let k = front.index_of(*c);
            assert(changes[k] == *c);
        }
        if changes.contains(*c) && *c != changes[n] {
            let k = changes.index_of(*c);
            assert(front[k] == *c);
        }
        if before.contains(c) {
            let k = before.index_of(c);
            assert(all[k] == c);
        }
        if all.contains(c) && !before.contains(c) {
            let k = all.index_of(c);
            if k < before.len() {
                assert(before[k] == c);
            }
            assert(changes[n] == *c);
        }
        if changes[n].status is Drafted {
            assert(all[before.len() as int] == &changes[n]);
            if *c == changes[n] {
                assert(all[before.len() as int] == c);
            }
        }
    }
}

/// Lines of names are those of the first and those of the second part.
pub proof fn name_lines_add_up(a: Seq<&DiscoveredChange>, c: &DiscoveredChange)
    ensures
        name_lines(a.push(c)) == name_lines(a) + c.name@ + "\n"@,
        name_lines(Seq::<&DiscoveredChange>::empty()).len() == 0,
{
    assert(a.push(c).drop_last() =~= a);
}

/// The age of something is told in whole seconds under a minute, else in whole
/// minutes under an hour, else in whole hours under a day, else in whole days.
pub proof fn ages_are_told_in_whole_units(t: Timestamp, now: Timestamp)
    ensures
        ({
            let s = seconds_between(t, now);
            &&& s < 60 ==> ago(t, now) == text::signed_decimal(s) + "s ago"@
            &&& forall|m: nat|
                1 <= m < 60 && m * 60 <= s < (m + 1) * 60 ==> ago(t, now) == #[trigger] text::decimal(
                    m,
                ) + "m ago"@
            &&& forall|h: nat|
                1 <= h < 24 && h * 3600 <= s < (h + 1) * 3600 ==> ago(t, now)
                    == #[trigger] text::decimal(h) + "h ago"@
            &&& forall|d: nat|
                1 <= d && d * 86_400 <= s < (d + 1) * 86_400 ==> ago(t, now)
                    == #[trigger] text::decimal(d) + "d ago"@
            &&& t.secs <= now.secs && t.nanos == now.nanos ==> s == now.secs - t.secs
            &&& now.secs <= t.secs && t.nanos == now.nanos ==> s == now.secs - t.secs
        }),
{
    let s = seconds_between(t, now);
    assert forall|m: nat| 1 <= m < 60 && m * 60 <= s < (m + 1) * 60 implies ago(t, now)
        == #[trigger] text::decimal(m) + "m ago"@ by {
        assert(s / 60 == m);
    }
    assert forall|h: nat| 1 <= h < 24 && h * 3600 <= s < (h + 1) * 3600 implies ago(t, now)
        == #[trigger] text::decimal(h) + "h ago"@ by {
        assert(s / 3600 == h);
    }
    assert forall|d: nat| 1 <= d && d * 86_400 <= s < (d + 1) * 86_400 implies ago(t, now)
        == #[trigger] text::decimal(d) + "d ago"@ by {
        assert(s / 86_400 == d);
    }
}

/// A workflow is shown with its name and phase; behind that stands why it
/// failed, or when it ended, or else when it started.
pub proof fn summaries_tell_phase_and_age(w: WorkflowView, now: Timestamp)
    ensures
        ({
            let s = workflow_summary(w, now);
            let head = w.name + ": "@ + status_label(w.status);
            let with = |trail: Seq<char>|
                if trail.len() == 0 {
                    head
                } else {
                    head + " ("@ + trail + ")"@
                };
            &&& w.status matches StatusView::Failed { reason } ==> s == with(reason)
            &&& !(w.status is Failed) && w.finished_at is Some ==> s == with(
                "finished "@ + ago(w.finished_at->0, now),
            )
            &&& !(w.status is Failed) && w.finished_at is None && w.started_at is Some ==> s
                == with("started "@ + ago(w.started_at->0, now))
            &&& !(w.status is Failed) && w.finished_at is None && w.started_at is None ==> s == head
        }),
{
}

/// The workflow that is shown under a name is the first that has it.
pub proof fn first_workflow_is_shown(ws: Seq<WorkflowView>, name: Seq<char>)
    ensures
        match workflow_called(ws, name) {
            Some(w) => exists|i: int| #[trigger] super::deps::led_to(ws, name, i) && ws[i] == w,
            None => forall|i: int| 0 <= i < ws.len() ==> (#[trigger] ws[i]).name != name,
        },
    decreases ws.len(),
{
    if ws.len() > 0 {
        if ws[0].name == name {
            assert(super::deps::led_to(ws, name, 0));
        } else {
            let rest = ws.skip(1);
            first_workflow_is_shown(rest, name);
            assert forall|i: int| 1 <= i < ws.len() implies ws[i] == #[trigger] rest[i - 1] by {}
            match workflow_called(rest, name) {
                Some(w) => {
                    let i = choose|i: int| #[trigger]
                        super::deps::led_to(rest, name, i) && rest[i] == w;
                    assert forall|j: int| 0 <= j < i + 1 implies (#[trigger] ws[j]).name != name by {
                        if j > 0 {
                            assert(rest[j - 1].name != name);
                        }
                    }
                    assert(super::deps::led_to(ws, name, i + 1));
                },
                None => {
                    assert forall|i: int| 0 <= i < ws.len() implies (#[trigger] ws[i]).name
                        != name by {
                        if i > 0 {
                            assert(rest[i - 1].name != name);
                        }
                    }
                },
            }
        }
    }
}

/// Cancelling makes a queued workflow a draft again and ends one that runs. A
/// draft, and one that has come to its end, stay as they are and are not
/// stored again. Nothing but the phase changes.
pub proof fn cancelling_ends_what_runs(
    r: Cancellation,
    name: Seq<char>,
    stored: Option<Workflow>,
)
    requires
        cancellation(r, name, stored),
    ensures
        stored is None ==> r.save is None,
        stored matches Some(w) ==> {
            let runs = w@.status == StatusView::Implementing || w@.status == StatusView::Verifying
                || w@.status == StatusView::Archiving;
            &&& w@.status == StatusView::Queued ==> (r.save matches Some(x) && x@ == WorkflowView {
                status: StatusView::Drafted,
                ..w@
            })
            &&& runs ==> (r.save matches Some(x) && x@ == WorkflowView {
                status: StatusView::Cancelled,
                ..w@
            })
            &&& w@.status != StatusView::Queued && !runs ==> r.save is None
        },
{
}

/// A section of a failed workflow is tried again with the workflow running; one
/// that waits or runs stays as it is. An archived or cancelled workflow, one
/// that is not stored, and a request without a section are refused.
pub proof fn retries_revive_failed_workflows(
    r: Result<RetryStart, CommandError>,
    name: Seq<char>,
    section: Option<String>,
    stored: Option<Workflow>,
)
    requires
        retry_started(r, name, section, stored),
    ensures
        r is Ok <==> section is Some && stored is Some && stored->0@.status != StatusView::Archived
            && stored->0@.status != StatusView::Cancelled,
        r matches Ok(s) ==> {
            let w = stored->0@;
            &&& s.section@ == section->0@
            &&& w.status is Failed ==> s.save && s.workflow@ == WorkflowView {
                status: StatusView::Implementing,
                ..w
            }
            &&& !(w.status is Failed) ==> !s.save && s.workflow@ == w
        },
{
}

/// The prompt of a phase runs once, in the worktree that all prompts of the
/// workflow share, with the repository as its directory, under the one tag.
pub proof fn phases_share_a_worktree(
    root: Seq<char>,
    name: Seq<char>,
    tag: Seq<char>,
    prompt: Seq<char>,
)
    ensures
        ({
            let p = phase_prompt(root, name, tag, prompt);
            &&& p.text == prompt
            &&& p.cwd == Some(root)
            &&& crate::prompt::mode_named(p.mode) == crate::prompt::PromptMode::OneShot
            &&& p.worktree
            &&& p.worktree_id == Some(name)
            &&& p.tags.len() == 1
            &&& p.tags[0] == tag
            &&& p.depends_on.len() == 0
        }),
{
}

/// The variables of a section's prompt are the change, its directory, the id
/// and the title of the section, and its tasks, each under its own name.
pub proof fn prompts_know_their_section(
    root: Seq<char>,
    name: Seq<char>,
    id: Seq<char>,
    label: Seq<char>,
    tasks: Seq<char>,
)
    ensures
        ({
            let v = apply_variables(root, name, id, label, tasks);
            &&& v.len() == 5
            &&& v.contains(("change_name"@, name))
            &&& v.contains(("change_dir"@, root + "/openspec/changes/"@ + name))
            &&& v.contains(("section_id"@, id))
            &&& v.contains(("section_title"@, label))
            &&& v.contains(("tasks_block"@, tasks))
        }),
{
    let v = apply_variables(root, name, id, label, tasks);
    assert(v[0] == ("change_name"@, name));
    assert(v[1] == ("change_dir"@, root + "/openspec/changes/"@ + name));
    assert(v[2] == ("section_id"@, id));
    assert(v[3] == ("section_title"@, label));
    assert(v[4] == ("tasks_block"@, tasks));
}

/// A section's tasks are told one to a line, in order, each with its box, its id
/// and its text, and are those of the first section with the id.
pub proof fn tasks_are_told_line_by_line(
    sections: Seq<AnnotatedSectionView>,
    i: int,
    id: Seq<char>,
)
    requires
        0 <= i < sections.len(),
        sections[i].section.id == id,
        forall|j: int| 0 <= j < i ==> (#[trigger] sections[j]).section.id != id,
    ensures
        tasks_block_of(sections, id) == text::joined(
            sections[i].items.map_values(
                |t: AnnotatedTaskView|
                    if t.task.done {
                        "- [x] "@ + t.task.id + " "@ + t.task.text
                    } else {
                        "- [ ] "@ + t.task.id + " "@ + t.task.text
                    },
            ),
            "\n"@,
        ),
    decreases sections.len(),
{
    if i > 0 {
        assert(sections[0].section.id != id);
        let rest = sections.skip(1);
        assert forall|j: int| 0 <= j < i - 1 implies (#[trigger] rest[j]).section.id != id by {
            assert(sections[j + 1].section.id != id);
        }
        assert(rest[i - 1] == sections[i]);
        tasks_are_told_line_by_line(rest, i - 1, id);
    } else {
        reveal_strlit("- ");
        reveal_strlit("[x]");
        reveal_strlit("[ ]");
        reveal_strlit(" ");
        reveal_strlit("- [x] ");
        reveal_strlit("- [ ] ");
        let items = sections[0].items;
        let a = items.map_values(|t: AnnotatedTaskView| task_line(t));
        let b = items.map_values(
            |t: AnnotatedTaskView|
                if t.task.done {
                    "- [x] "@ + t.task.id + " "@ + t.task.text
                } else {
                    "- [ ] "@ + t.task.id + " "@ + t.task.text
                },
        );
        assert forall|k: int| 0 <= k < items.len() implies #[trigger] a[k] == b[k] by {
            assert(a[k] =~= b[k]);
        }
        assert(a =~= b);
    }
}

/// The node that is tried again is the first with the id.
pub proof fn first_node_is_retried(nodes: Seq<DagNodeView>, id: Seq<char>)
    ensures
        match node_called(nodes, id) {
            Some(n) => exists|i: int|
                0 <= i < nodes.len() && #[trigger] nodes[i] == n && n.id == id && forall|j: int|
                    0 <= j < i ==> (#[trigger] nodes[j]).id != id,
            None => forall|i: int| 0 <= i < nodes.len() ==> (#[trigger] nodes[i]).id != id,
        },
    decreases nodes.len(),
{
    if nodes.len() > 0 && nodes[0].id != id {
        let rest = nodes.skip(1);
        first_node_is_retried(rest, id);
        assert forall|i: int| 1 <= i < nodes.len() implies nodes[i] == #[trigger] rest[i - 1] by {}
        match node_called(rest, id) {
            Some(n) => {
                let i = choose|i: int|
                    0 <= i < rest.len() && #[trigger] rest[i] == n && n.id == id && forall|j: int|
                        0 <= j < i ==> (#[trigger] rest[j]).id != id;
                assert(nodes[i + 1] == n);
                assert forall|j: int| 0 <= j < i + 1 implies (#[trigger] nodes[j]).id != id by {
                    if j > 0 {
                        assert(rest[j - 1].id != id);
                    }
                }
            },
            None => {
                assert forall|i: int| 0 <= i < nodes.len() implies (#[trigger] nodes[i]).id
                    != id by {
                    if i > 0 {
                        assert(rest[i - 1].id != id);
                    }
                }
            },
        }
    }
}

/// A change is proposed by a prompt that runs once in the repository itself, so
/// that the change shows up there.
pub proof fn proposals_run_in_the_repository(root: Seq<char>, prompt: Seq<char>)
    ensures
        ({
            let p = proposal(root, prompt);
            &&& p.text == prompt
            &&& p.cwd == Some(root)
            &&& crate::prompt::mode_named(p.mode) == crate::prompt::PromptMode::OneShot
            &&& !p.worktree
            &&& p.worktree_id is None
            &&& p.tags.len() == 1
            &&& p.tags[0] == "clhorde-scheduler/phase=propose"@
            &&& p.depends_on.len() == 0
        }),
{
}

/// The tag of a phase names the workflow and the phase.
pub proof fn tags_name_workflow_and_phase(name: Seq<char>, phase: Seq<char>)
    ensures
        phase_tag(name, phase) == "clhorde-scheduler/wf="@ + name + "/phase="@ + phase,
{
}

/// A change that had no marker counts as taken out of the queue; only a marker
/// that could not be removed is a failure.
pub proof fn unqueueing_is_idempotent(
    r: Result<CommandOutput, CommandError>,
    name: Seq<char>,
    removal: Removal,
)
    requires
        unqueued(r, name, removal),
    ensures
        r is Err <==> removal is Failed,
        removal == Removal::Removed ==> (r matches Ok(o) && o.stdout@ == "unqueued: "@ + name
            + "\n"@),
        removal == Removal::NotFound ==> (r matches Ok(o) && o.stdout@ == "unqueued: "@ + name
            + " (already removed)\n"@),
{
}

/// A workflow that is named is shown in full, if it is stored; without a name
/// every stored workflow is shown, each on a line of its own and in order.
pub proof fn status_shows_what_is_stored(
    r: Result<CommandOutput, CommandError>,
    name: Option<Seq<char>>,
    ws: Seq<WorkflowView>,
    now: Timestamp,
)
    requires
        status_shown(r, name, ws, now),
    ensures
        name matches Some(n) ==> (r is Ok <==> exists|i: int|
            0 <= i < ws.len() && (#[trigger] ws[i]).name == n),
        name matches Some(n) ==> forall|i: int| #[trigger]
            super::deps::led_to(ws, n, i) ==> (r matches Ok(o) && o.stdout@ == workflow_detail(
                ws[i],
            )),
        name is None && ws.len() > 0 ==> (r matches Ok(o) && o.stdout@ == summary_lines(
            ws.drop_last(),
            now,
        ) + workflow_summary(ws.last(), now) + "\n"@),
        name is None ==> r is Ok,
{
    if let Some(n) = name {
        first_workflow_is_shown(ws, n);
        assert forall|i: int| #[trigger] super::deps::led_to(ws, n, i) implies (r matches Ok(o)
            && o.stdout@ == workflow_detail(ws[i])) by {
            assert(ws[i].name == n);
            let w = workflow_called(ws, n)->0;
            let j = choose|j: int| #[trigger] super::deps::led_to(ws, n, j) && ws[j] == w;
            assert(i == j) by {
                if i < j {
                    assert(ws[i].name != n);
                }
                if j < i {
                    assert(ws[j].name != n);
                }
            }
        }
    }
}

/// An idea is the words of the command with a space between them; one of white
/// space alone is refused.
pub proof fn ideas_are_more_than_white_space(
    r: Result<String, CommandError>,
    words: Seq<Seq<char>>,
)
    requires
        idea_is(r, words),
    ensures
        ({
            let idea = text::joined(words, " "@);
            &&& r is Ok <==> exists|k: int|
                0 <= k < idea.len() && !text::white(#[trigger] idea[k])
            &&& r matches Ok(s) ==> s@ == idea
        }),
{
    let idea = text::joined(words, " "@);
    let (a, b) = text::trimming_drops_white(idea);
    if a < b {
        assert(!text::white(idea[a]));
    } else {
        assert forall|k: int| 0 <= k < idea.len() implies text::white(#[trigger] idea[k]) by {}
    }
}

} // verus!
