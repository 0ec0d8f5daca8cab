//! `status`: how things stand with the daemon.

use vstd::prelude::*;
use vstd::string::*;

use super::reply::{
    clip, clippable, clipped, daemon_error, no_answer, row_text, says, table_row,
    unexpected_answer, Reply,
};
use crate::protocol::{status_named, symbol_of, ClientRequest, DaemonEvent, DaemonState, PromptInfo};
use crate::text;

verus! {

/// The usage text.
pub const STATUS_USAGE: &'static str = "Usage: clhorde-cli status\n";

/// The line below the heads of the table.
pub const STATUS_RULE: &'static str = "----------------------------------------------------------------------\n";

/// What `status` with these arguments asks the daemon, or says instead.
pub open spec fn status_asked(args: Seq<Seq<char>>, r: Result<ClientRequest, Reply>) -> bool {
    if args.len() > 0 {
        r matches Err(x) && says(x, 1, Seq::empty(), STATUS_USAGE@)
    } else {
        r == Ok::<ClientRequest, Reply>(ClientRequest::GetState)
    }
}

/// The question for the daemon.
pub fn cmd_status(args: &[String]) -> (r: Result<ClientRequest, Reply>)
    ensures
        status_asked(text::texts(args@), r),
{
    if args.len() > 0 {
        return Err(Reply::failure(text::owned(STATUS_USAGE)));
    }
    Ok(ClientRequest::GetState)
}

/// The row for a prompt.
pub open spec fn status_row(p: PromptInfo) -> Seq<char> {
    row_text(
        text::decimal(p.id as nat),
        4,
        symbol_of(status_named(p.status@)) + " "@ + text::lowercased(p.status@),
        14,
        p.mode@,
        clipped(p.text@),
    )
}

/// The rows for some prompts.
pub open spec fn status_rows(ps: Seq<PromptInfo>) -> Seq<char>
    decreases ps.len(),
{
    if ps.len() == 0 {
        Seq::empty()
    } else {
        status_rows(ps.drop_last()) + status_row(ps.last())
    }
}

/// The report on a state.
pub open spec fn status_report(s: DaemonState) -> Seq<char> {
    "Workers: "@ + text::decimal(s.active_workers as nat) + "/"@ + text::decimal(
        s.max_workers as nat,
    ) + " active\nMode: "@ + s.default_mode@ + "\n\n"@ + (if s.prompts@.len() == 0 {
        "No prompts.\n"@
    } else {
        row_text("ID"@, 4, "STATUS"@, 14, "MODE"@, "PROMPT"@) + STATUS_RULE@ + status_rows(
            s.prompts@,
        )
    })
}

/// Whether the texts of some prompts can be cut for a table.
pub open spec fn all_clippable(ps: Seq<PromptInfo>) -> bool {
    forall|i: int| 0 <= i < ps.len() ==> clippable((#[trigger] ps[i]).text@)
}

/// The row for a prompt.
fn format_row(p: &PromptInfo) -> (r: String)
    requires
        clippable(p.text@),
    ensures
        r@ == status_row(*p),
{
    let id: String = text::number(p.id as u128);
    let status: String = text::to_lowercase(p.status.as_str());
    let shown: String = text::cat3(p.status_symbol(), " ", status.as_str());
    let words: String = clip(p.text.as_str());
    table_row(id.as_str(), 4, shown.as_str(), 14, p.mode.as_str(), words.as_str())
}

/// The rows for some prompts.
fn format_rows(ps: &Vec<PromptInfo>) -> (r: String)
    requires
        all_clippable(ps@),
    ensures
        r@ == status_rows(ps@),
{
    let mut out: String = String::new();
    let mut i: usize = 0;
    proof {
        assert(out@ =~= status_rows(ps@.take(0)));
    }
    while i < ps.len()
        invariant
            i <= ps.len(),
            all_clippable(ps@),
            out@ == status_rows(ps@.take(i as int)),
        decreases ps.len() - i,
    {
        proof {
            assert(ps@.take(i + 1).drop_last() =~= ps@.take(i as int));
        }
        out.append(format_row(&ps[i]).as_str());
        i = i + 1;
    }
    proof {
        assert(ps@.take(ps@.len() as int) =~= ps@);
    }
    out
}

/// The report on a state.
pub fn format_status(s: &DaemonState) -> (r: String)
    requires
        all_clippable(s.prompts@),
    ensures
        r@ == status_report(*s),
{
    let active: String = text::number(s.active_workers as u128);
    let limit: String = text::number(s.max_workers as u128);
    let mut out: String = text::cat6(
        "Workers: ",
        active.as_str(),
        "/",
        limit.as_str(),
        " active\nMode: ",
        s.default_mode.as_str(),
    );
    out.append("\n\n");
    if s.prompts.len() == 0 {
        out.append("No prompts.\n");
        return out;
    }
    let head: String = table_row("ID", 4, "STATUS", 14, "MODE", "PROMPT");
    let rows: String = format_rows(&s.prompts);
    let table: String = text::cat3(head.as_str(), STATUS_RULE, rows.as_str());
    out.append(table.as_str());
    out
}

/// What to print for the answer of the daemon.
pub fn status_reply(answer: &Result<DaemonEvent, String>) -> (r: Reply)
    requires
        *answer matches Ok(DaemonEvent::StateSnapshot(s)) ==> all_clippable(s.prompts@),
    ensures
        match *answer {
            Ok(DaemonEvent::StateSnapshot(s)) => says(r, 0, status_report(s), Seq::empty()),
            Ok(DaemonEvent::Error { message }) => says(
                r,
                1,
                Seq::empty(),
                "Error: "@ + message@ + "\n"@,
            ),
            Err(e) => says(r, 1, Seq::empty(), e@ + "\n"@),
            _ => says(r, 1, Seq::empty(), "Unexpected response from daemon.\n"@),
        },
{
    match answer {
        Ok(DaemonEvent::StateSnapshot(s)) => Reply::success(format_status(s)),
        Ok(DaemonEvent::Error { message }) => daemon_error(message.as_str()),
        Err(e) => no_answer(e.as_str()),
        _ => unexpected_answer(),
    }
}

/// The rows of a report are those of its prompts, one for each, in order, each
/// with its number, its status, its mode and its text.
pub proof fn report_rows_stand_in_order(ps: Seq<PromptInfo>, p: PromptInfo)
    ensures
        status_rows(ps.push(p)) == status_rows(ps) + status_row(p),
        status_rows(Seq::<PromptInfo>::empty()).len() == 0,
        status_row(p) == text::padded(text::decimal(p.id as nat), 4) + " "@ + text::padded(
            symbol_of(status_named(p.status@)) + " "@ + text::lowercased(p.status@),
            14,
        ) + " "@ + text::padded(p.mode@, 13) + " "@ + clipped(p.text@) + "\n"@,
{
    assert(ps.push(p).drop_last() =~= ps);
}

} // verus!
