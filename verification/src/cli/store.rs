//! `store`: the prompts that the daemon keeps.

use vstd::prelude::*;
use vstd::string::*;

use super::reply::{
    clip, clipped, daemon_error, no_answer, row_text, says, table_row, unexpected_answer, Reply,
};
use super::status::all_clippable;
use crate::protocol::{ClientRequest, DaemonEvent, PromptInfo};
use crate::text;

verus! {

/// The usage text.
pub const STORE_USAGE: &'static str = "Usage: clhorde-cli store <list|count|path|drop|keep|clean-worktrees>\n  list              List all stored prompts\n  count             Show prompt counts by state\n  path              Print storage directory path\n  drop <filter>     Delete stored prompts\n  keep <filter>     Keep only matching, delete rest\n  clean-worktrees   Remove lingering git worktrees\n\nFilters: all, completed, failed, pending, running\n";

/// The usage text of `store drop`.
pub const DROP_USAGE: &'static str = "Usage: clhorde-cli store drop <filter>\nFilters: all, completed, failed, pending, running\n";

/// The usage text of `store keep`.
pub const KEEP_USAGE: &'static str = "Usage: clhorde-cli store keep <filter>\nFilters: completed, failed, pending, running\n";

/// The line below the heads of the table.
pub const STORE_RULE: &'static str = "------------------------------------------------------------------------------\n";

/// A command on the kept prompts.
#[derive(Debug, PartialEq)]
pub enum StoreCommand {
    List,
    Count,
    Path,
    Drop { filter: String },
    Keep { filter: String },
    CleanWorktrees,
}

/// A filter that names one state.
pub open spec fn names_state(f: Seq<char>) -> bool {
    f == "completed"@ || f == "failed"@ || f == "pending"@ || f == "running"@
}

/// Whether a filter names one state.
fn is_state(f: &str) -> (r: bool)
    ensures
        r == names_state(f@),
{
    text::same(f, "completed") || text::same(f, "failed") || text::same(f, "pending")
        || text::same(f, "running")
}

/// The second argument, if there is one.
pub open spec fn second(args: Seq<Seq<char>>) -> Option<Seq<char>> {
    if args.len() < 2 {
        None
    } else {
        Some(args[1])
    }
}

/// `store drop` with the given filter.
pub fn store_drop(filter: Option<&str>) -> (r: Result<StoreCommand, Reply>)
    ensures
        match filter {
            None => r matches Err(x) && says(x, 1, Seq::empty(), DROP_USAGE@),
            Some(f) => if f@ == "all"@ || names_state(f@) {
                r matches Ok(StoreCommand::Drop { filter: g }) && g@ == f@
            } else {
                r matches Err(x) && says(
                    x,
                    1,
                    Seq::empty(),
                    "Unknown filter: "@ + f@
                        + "\nValid filters: all, completed, failed, pending, running\n"@,
                )
            },
        },
{
    match filter {
        None => Err(Reply::failure(text::owned(DROP_USAGE))),
        Some(f) => {
            if text::same(f, "all") || is_state(f) {
                Ok(StoreCommand::Drop { filter: text::owned(f) })
            } else {
                Err(
                    Reply::failure(
                        text::cat3(
                            "Unknown filter: ",
                            f,
                            "\nValid filters: all, completed, failed, pending, running\n",
                        ),
                    ),
                )
            }
        },
    }
}

/// `store keep` with the given filter.
pub fn store_keep(filter: Option<&str>) -> (r: Result<StoreCommand, Reply>)
    ensures
        match filter {
            None => r matches Err(x) && says(x, 1, Seq::empty(), KEEP_USAGE@),
            Some(f) => if names_state(f@) {
                r matches Ok(StoreCommand::Keep { filter: g }) && g@ == f@
            } else {
                r matches Err(x) && says(
                    x,
                    1,
                    Seq::empty(),
                    "Unknown filter: "@ + f@
                        + "\nValid filters: completed, failed, pending, running\n"@,
                )
            },
        },
{
    match filter {
        None => Err(Reply::failure(text::owned(KEEP_USAGE))),
        Some(f) => {
            if is_state(f) {
                Ok(StoreCommand::Keep { filter: text::owned(f) })
            } else {
                Err(
                    Reply::failure(
                        text::cat3(
                            "Unknown filter: ",
                            f,
                            "\nValid filters: completed, failed, pending, running\n",
                        ),
                    ),
                )
            }
        },
    }
}

/// Whether `r` is what the arguments of `store` come to.
pub open spec fn store_asked(args: Seq<Seq<char>>, r: Result<StoreCommand, Reply>) -> bool {
    if args.len() == 0 {
        r matches Err(x) && says(x, 1, Seq::empty(), STORE_USAGE@)
    } else if args[0] == "list"@ {
        r matches Ok(StoreCommand::List)
    } else if args[0] == "count"@ {
        r matches Ok(StoreCommand::Count)
    } else if args[0] == "path"@ {
        r matches Ok(StoreCommand::Path)
    } else if args[0] == "drop"@ {
        match second(args) {
            None => r matches Err(x) && says(x, 1, Seq::empty(), DROP_USAGE@),
            Some(f) => if f == "all"@ || names_state(f) {
                r matches Ok(StoreCommand::Drop { filter }) && filter@ == f
            } else {
                r matches Err(x) && says(
                    x,
                    1,
                    Seq::empty(),
                    "Unknown filter: "@ + f
                        + "\nValid filters: all, completed, failed, pending, running\n"@,
                )
            },
        }
    } else if args[0] == "keep"@ {
        match second(args) {
            None => r matches Err(x) && says(x, 1, Seq::empty(), KEEP_USAGE@),
            Some(f) => if names_state(f) {
                r matches Ok(StoreCommand::Keep { filter }) && filter@ == f
            } else {
                r matches Err(x) && says(
                    x,
                    1,
                    Seq::empty(),
                    "Unknown filter: "@ + f
                        + "\nValid filters: completed, failed, pending, running\n"@,
                )
            },
        }
    } else if args[0] == "clean-worktrees"@ {
        r matches Ok(StoreCommand::CleanWorktrees)
    } else {
        r matches Err(x) && says(x, 1, Seq::empty(), STORE_USAGE@)
    }
}

/// The command that the arguments of `store` ask for.
pub fn cmd_store(args: &[String]) -> (r: Result<StoreCommand, Reply>)
    ensures
        store_asked(text::texts(args@), r),
{
    if args.len() == 0 {
        return Err(Reply::failure(text::owned(STORE_USAGE)));
    }
    let name: &str = args[0].as_str();
    let filter: Option<&str> = if args.len() > 1 {
        Some(args[1].as_str())
    } else {
        None
    };
    proof {
        assert(text::texts(args@)[0] == name@);
        if args@.len() > 1 {
            assert(text::texts(args@)[1] == args@[1]@);
        }
    }
    if text::same(name, "list") {
        Ok(StoreCommand::List)
    } else if text::same(name, "count") {
        Ok(StoreCommand::Count)
    } else if text::same(name, "path") {
        Ok(StoreCommand::Path)
    } else if text::same(name, "drop") {
        store_drop(filter)
    } else if text::same(name, "keep") {
        store_keep(filter)
    } else if text::same(name, "clean-worktrees") {
        Ok(StoreCommand::CleanWorktrees)
    } else {
        Err(Reply::failure(text::owned(STORE_USAGE)))
    }
}

/// Whether `r` is the question for the daemon.
pub open spec fn store_question(command: StoreCommand, r: ClientRequest) -> bool {
    match command {
        StoreCommand::List => r is StoreList,
        StoreCommand::Count => r is StoreCount,
        StoreCommand::Path => r is StorePath,
        StoreCommand::Drop { filter } => r matches ClientRequest::StoreDrop { filter: f } && f@
            == filter@,
        StoreCommand::Keep { filter } => r matches ClientRequest::StoreKeep { filter: f } && f@
            == filter@,
        StoreCommand::CleanWorktrees => r is CleanWorktrees,
    }
}

/// The question for the daemon.
pub fn store_request(command: &StoreCommand) -> (r: ClientRequest)
    ensures
        store_question(*command, r),
{
    match command {
        StoreCommand::List => ClientRequest::StoreList,
        StoreCommand::Count => ClientRequest::StoreCount,
        StoreCommand::Path => ClientRequest::StorePath,
        StoreCommand::Drop { filter } => ClientRequest::StoreDrop { filter: filter.clone() },
        StoreCommand::Keep { filter } => ClientRequest::StoreKeep { filter: filter.clone() },
        StoreCommand::CleanWorktrees => ClientRequest::CleanWorktrees,
    }
}

/// The row for a prompt.
pub open spec fn store_row(p: PromptInfo) -> Seq<char> {
    row_text(p.uuid@, 38, p.status@, 11, p.mode@, clipped(p.text@))
}

/// The rows for some prompts.
pub open spec fn store_rows(ps: Seq<PromptInfo>) -> Seq<char>
    decreases ps.len(),
{
    if ps.len() == 0 {
        Seq::empty()
    } else {
        store_rows(ps.drop_last()) + store_row(ps.last())
    }
}

/// The table of the kept prompts.
pub open spec fn store_table(ps: Seq<PromptInfo>) -> Seq<char> {
    if ps.len() == 0 {
        "No stored prompts.\n"@
    } else {
        row_text("UUID"@, 38, "STATE"@, 11, "MODE"@, "PROMPT"@) + STORE_RULE@ + store_rows(ps)
            + "\n"@ + text::decimal(ps.len()) + " prompt(s) total.\n"@
    }
}

/// The table of the kept prompts.
pub fn format_store(ps: &Vec<PromptInfo>) -> (r: String)
    requires
        all_clippable(ps@),
    ensures
        r@ == store_table(ps@),
{
    if ps.len() == 0 {
        return text::owned("No stored prompts.\n");
    }
    let mut rows: String = String::new();
    let mut i: usize = 0;
    proof {
        assert(rows@ =~= store_rows(ps@.take(0)));
    }
    while i < ps.len()
        invariant
            i <= ps.len(),
            all_clippable(ps@),
            rows@ == store_rows(ps@.take(i as int)),
        decreases ps.len() - i,
    {
        let p: &PromptInfo = &ps[i];
        proof {
            assert(ps@.take(i + 1).drop_last() =~= ps@.take(i as int));
        }
        let words: String = clip(p.text.as_str());
        let row: String = table_row(
            p.uuid.as_str(),
            38,
            p.status.as_str(),
            11,
            p.mode.as_str(),
            words.as_str(),
        );
        rows.append(row.as_str());
        i = i + 1;
    }
    proof {
        assert(ps@.take(ps@.len() as int) =~= ps@);
    }
    let head: String = table_row("UUID", 38, "STATE", 11, "MODE", "PROMPT");
    let n: String = text::number(ps.len() as u128);
    text::cat6(head.as_str(), STORE_RULE, rows.as_str(), "\n", n.as_str(), " prompt(s) total.\n")
}

/// A line for a count that is not zero.
pub open spec fn count_line(name: Seq<char>, n: usize) -> Seq<char> {
    if n > 0 {
        name + ": "@ + text::decimal(n as nat) + "\n"@
    } else {
        Seq::empty()
    }
}

/// The counts of the kept prompts.
pub open spec fn count_report(pending: usize, running: usize, completed: usize, failed: usize) -> Seq<
    char,
> {
    let total = pending + running + completed + failed;
    if total == 0 {
        "No stored prompts.\n"@
    } else {
        count_line("completed"@, completed) + count_line("failed"@, failed) + count_line(
            "pending"@,
            pending,
        ) + count_line("running"@, running) + "total: "@ + text::decimal(total as nat) + "\n"@
    }
}

/// A line for a count that is not zero.
fn format_count(name: &str, n: usize) -> (r: String)
    ensures
        r@ == count_line(name@, n),
{
    if n == 0 {
        let out: String = String::new();
        proof {
            assert(out@ =~= Seq::<char>::empty());
        }
        return out;
    }
    let number: String = text::number(n as u128);
    text::cat4(name, ": ", number.as_str(), "\n")
}

/// The counts of the kept prompts.
pub fn format_counts(pending: usize, running: usize, completed: usize, failed: usize) -> (r: String)
    requires
        pending + running + completed + failed <= usize::MAX,
    ensures
        r@ == count_report(pending, running, completed, failed),
{
    let total: usize = pending + running + completed + failed;
    if total == 0 {
        return text::owned("No stored prompts.\n");
    }
    let a: String = format_count("completed", completed);
    let b: String = format_count("failed", failed);
    let c: String = format_count("pending", pending);
    let d: String = format_count("running", running);
    let n: String = text::number(total as u128);
    let mut out: String = text::cat6(
        a.as_str(),
        b.as_str(),
        c.as_str(),
        d.as_str(),
        "total: ",
        n.as_str(),
    );
    out.append("\n");
    out
}

/// What is printed for an answer that fits the command.
pub open spec fn store_printed(command: StoreCommand, event: DaemonEvent) -> Option<Seq<char>> {
    match (command, event) {
        (StoreCommand::List, DaemonEvent::StoreListResult { prompts }) => Some(
            store_table(prompts@),
        ),
        (
            StoreCommand::Count,
            DaemonEvent::StoreCountResult { pending, running, completed, failed },
        ) => Some(count_report(pending, running, completed, failed)),
        (StoreCommand::Path, DaemonEvent::StorePathResult { path }) => Some(path@ + "\n"@),
        (StoreCommand::Drop { .. }, DaemonEvent::StoreOpComplete { message }) => Some(
            message@ + "\n"@,
        ),
        (StoreCommand::Keep { .. }, DaemonEvent::StoreOpComplete { message }) => Some(
            message@ + "\n"@,
        ),
        (StoreCommand::CleanWorktrees, DaemonEvent::StoreOpComplete { message }) => Some(
            message@ + "\n"@,
        ),
        _ => None,
    }
}

/// Whether an answer can be printed: its texts can be cut, its sum is a
/// number.
pub open spec fn printable(event: DaemonEvent) -> bool {
    match event {
        DaemonEvent::StoreListResult { prompts } => all_clippable(prompts@),
        DaemonEvent::StoreCountResult { pending, running, completed, failed } => pending + running
            + completed + failed <= usize::MAX,
        _ => true,
    }
}

/// What is printed for an answer that fits the command.
fn print_answer(command: &StoreCommand, event: &DaemonEvent) -> (r: Option<String>)
    requires
        printable(*event),
    ensures
        text::text_option(r) == store_printed(*command, *event),
{
    match (command, event) {
        (StoreCommand::List, DaemonEvent::StoreListResult { prompts }) => Some(
            format_store(prompts),
        ),
        (
            StoreCommand::Count,
            DaemonEvent::StoreCountResult { pending, running, completed, failed },
        ) => Some(format_counts(*pending, *running, *completed, *failed)),
        (StoreCommand::Path, DaemonEvent::StorePathResult { path }) => Some(
            text::cat2(path.as_str(), "\n"),
        ),
        (StoreCommand::Drop { .. }, DaemonEvent::StoreOpComplete { message }) => Some(
            text::cat2(message.as_str(), "\n"),
        ),
        (StoreCommand::Keep { .. }, DaemonEvent::StoreOpComplete { message }) => Some(
            text::cat2(message.as_str(), "\n"),
        ),
        (StoreCommand::CleanWorktrees, DaemonEvent::StoreOpComplete { message }) => Some(
            text::cat2(message.as_str(), "\n"),
        ),
        _ => None,
    }
}

/// What to print for the answer of the daemon.
pub fn store_reply(command: &StoreCommand, answer: &Result<DaemonEvent, String>) -> (r: Reply)
    requires
        *answer matches Ok(e) ==> printable(e),
    ensures
        match *answer {
            Err(e) => says(r, 1, Seq::empty(), e@ + "\n"@),
            Ok(event) => match store_printed(*command, event) {
                Some(out) => says(r, 0, out, Seq::empty()),
                None => match event {
                    DaemonEvent::Error { message } => says(
                        r,
                        1,
                        Seq::empty(),
                        "Error: "@ + message@ + "\n"@,
                    ),
                    _ => says(r, 1, Seq::empty(), "Unexpected response from daemon.\n"@),
                },
            },
        },
{
    match answer {
        Err(e) => no_answer(e.as_str()),
        Ok(event) => match print_answer(command, event) {
            Some(out) => Reply::success(out),
            None => match event {
                DaemonEvent::Error { message } => daemon_error(message.as_str()),
                _ => unexpected_answer(),
            },
        },
    }
}

/// The daemon is asked for what the command names: to list, to count, to tell
/// the path, to drop or to keep by the same word, or to clean up worktrees.
pub proof fn commands_reach_the_daemon(command: StoreCommand, r: ClientRequest)
    requires
        store_question(command, r),
    ensures
        r is StoreList <==> command is List,
        r is StoreCount <==> command is Count,
        r is StorePath <==> command is Path,
        r is StoreDrop <==> command is Drop,
        r is StoreKeep <==> command is Keep,
        r is CleanWorktrees <==> command is CleanWorktrees,
        command matches StoreCommand::Drop { filter } ==> (r matches ClientRequest::StoreDrop {
            filter: f,
        } && f@ == filter@),
        command matches StoreCommand::Keep { filter } ==> (r matches ClientRequest::StoreKeep {
            filter: f,
        } && f@ == filter@),
{
}

/// Prompts are dropped only by a word for one state, or by `all`, and kept only
/// by a word for one state; any other word is refused, and so is none.
pub proof fn filters_are_words_for_states(
    args: Seq<Seq<char>>,
    r: Result<StoreCommand, Reply>,
)
    requires
        store_asked(args, r),
    ensures
        ({
            let state = |f: Seq<char>|
                f == "completed"@ || f == "failed"@ || f == "pending"@ || f == "running"@;
            &&& r matches Ok(StoreCommand::Drop { filter }) ==> args.len() >= 2 && args[0]
                == "drop"@ && args[1] == filter@ && (filter@ == "all"@ || state(filter@))
            &&& r matches Ok(StoreCommand::Keep { filter }) ==> args.len() >= 2 && args[0]
                == "keep"@ && args[1] == filter@ && state(filter@)
            &&& args.len() >= 2 && args[0] == "drop"@ && (args[1] == "all"@ || state(args[1])) ==> (
            r matches Ok(StoreCommand::Drop { filter }) && filter@ == args[1])
            &&& args.len() >= 2 && args[0] == "keep"@ && state(args[1]) ==> (
            r matches Ok(StoreCommand::Keep { filter }) && filter@ == args[1])
            &&& args.len() == 0 ==> r is Err
            &&& args.len() > 0 && args[0] == "list"@ ==> r == Ok::<StoreCommand, Reply>(
                StoreCommand::List,
            )
            &&& args.len() > 0 && args[0] == "count"@ ==> r == Ok::<StoreCommand, Reply>(
                StoreCommand::Count,
            )
            &&& args.len() > 0 && args[0] == "path"@ ==> r == Ok::<StoreCommand, Reply>(
                StoreCommand::Path,
            )
            &&& args.len() > 0 && args[0] == "clean-worktrees"@ ==> r == Ok::<StoreCommand, Reply>(
                StoreCommand::CleanWorktrees,
            )
        }),
{
    reveal_strlit("list");
    reveal_strlit("count");
    reveal_strlit("path");
    reveal_strlit("drop");
    reveal_strlit("keep");
    reveal_strlit("clean-worktrees");
    assert("list"@[0] == 'l' && "count"@[0] == 'c' && "path"@[0] == 'p' && "drop"@[0] == 'd'
        && "keep"@[0] == 'k' && "clean-worktrees"@[0] == 'c');
    assert("count"@.len() == 5 && "clean-worktrees"@.len() == 15);
}

/// The rows of a list are those of its prompts, one for each, in order.
pub proof fn rows_stand_in_order(ps: Seq<PromptInfo>, p: PromptInfo)
    ensures
        store_rows(ps.push(p)) == store_rows(ps) + store_row(p),
        store_rows(Seq::<PromptInfo>::empty()).len() == 0,
{
    assert(ps.push(p).drop_last() =~= ps);
}

} // verus!
