//! `attach`: watch a prompt until it is done.

use vstd::prelude::*;
use vstd::string::*;

use super::reply::{says, Reply};
use crate::protocol::{info_views, ClientRequest, DaemonEvent, DaemonEventView, PromptInfo, PromptInfoView};
use crate::text;

verus! {

/// The usage text.
pub const ATTACH_USAGE: &'static str = "Usage: clhorde-cli attach <id>\n";

/// The prompt to watch, and the requests to begin with.
#[derive(Debug, PartialEq)]
pub struct Attachment {
    pub id: usize,
    pub requests: Vec<ClientRequest>,
}

/// The number that an argument names.
pub open spec fn id_named(args: Seq<Seq<char>>) -> Option<nat> {
    if args.len() == 0 {
        None
    } else {
        text::number_in(args[0], usize::MAX as nat)
    }
}

/// What `attach` with these arguments asks the daemon, or says instead.
pub open spec fn attach_asked(args: Seq<Seq<char>>, r: Result<Attachment, Reply>) -> bool {
    match id_named(args) {
        Some(n) => {
            &&& r matches Ok(a)
            &&& a.id == n
            &&& a.requests@ == seq![ClientRequest::Subscribe, ClientRequest::GetState]
        },
        None => r matches Err(x) && says(x, 1, Seq::empty(), ATTACH_USAGE@),
    }
}

/// The prompt to watch, and the requests to begin with: to be told what
/// happens, and how things stand.
pub fn cmd_attach(args: &[String]) -> (r: Result<Attachment, Reply>)
    ensures
        attach_asked(text::texts(args@), r),
{
    if args.len() == 0 {
        return Err(Reply::failure(text::owned(ATTACH_USAGE)));
    }
    proof {
        assert(text::texts(args@)[0] == args@[0]@);
    }
    match text::parse_number(args[0].as_str(), usize::MAX as u64) {
        Some(n) => {
            let requests: Vec<ClientRequest> = vec![
                ClientRequest::Subscribe,
                ClientRequest::GetState,
            ];
            proof {
                assert(requests@ =~= seq![ClientRequest::Subscribe, ClientRequest::GetState]);
            }
            Ok(Attachment { id: n as usize, requests })
        },
        None => Err(Reply::failure(text::owned(ATTACH_USAGE))),
    }
}

/// What to print for an event, whether to watch on, and whether it is a
/// failure.
#[derive(Debug, PartialEq)]
pub struct AttachStep {
    pub out: String,
    pub err: String,
    pub go_on: bool,
    pub failed: bool,
}

/// What an [`AttachStep`] holds.
pub ghost struct AttachStepView {
    pub out: Seq<char>,
    pub err: Seq<char>,
    pub go_on: bool,
    pub failed: bool,
}

impl View for AttachStep {
    type V = AttachStepView;

    open spec fn view(&self) -> AttachStepView {
        AttachStepView {
            out: self.out@,
            err: self.err@,
            go_on: self.go_on,
            failed: self.failed,
        }
    }
}

/// The first prompt with the number `id`.
pub open spec fn prompt_info(ps: Seq<PromptInfoView>, id: usize) -> Option<PromptInfoView>
    decreases ps.len(),
{
    if ps.len() == 0 {
        None
    } else if ps[0].id == id {
        Some(ps[0])
    } else {
        prompt_info(ps.skip(1), id)
    }
}

/// Print something and watch on, or not.
pub open spec fn prints(out: Seq<char>, go_on: bool) -> AttachStepView {
    AttachStepView { out, err: Seq::empty(), go_on, failed: false }
}

/// Complain and stop.
pub open spec fn complains(err: Seq<char>) -> AttachStepView {
    AttachStepView { out: Seq::empty(), err, go_on: false, failed: true }
}

/// What to do about an event while the prompt `id` is watched.
pub open spec fn watched(id: usize, event: DaemonEventView) -> AttachStepView {
    match event {
        DaemonEventView::StateSnapshot(state) => match prompt_info(state.prompts, id) {
            None => complains("Prompt #"@ + text::decimal(id as nat) + " not found.\n"@),
            Some(info) => if info.status == "Completed"@ || info.status == "Failed"@ {
                prints(
                    match info.output {
                        Some(o) => o,
                        None => Seq::empty(),
                    },
                    false,
                )
            } else {
                prints(Seq::empty(), true)
            },
        },
        DaemonEventView::OutputChunk { prompt_id, text } => if prompt_id == id {
            prints(text, true)
        } else {
            prints(Seq::empty(), true)
        },
        DaemonEventView::PromptOutput { prompt_id, full_text } => if prompt_id == id {
            prints(full_text, false)
        } else {
            prints(Seq::empty(), true)
        },
        DaemonEventView::WorkerFinished { prompt_id, .. } => prints(
            Seq::empty(),
            prompt_id != id,
        ),
        DaemonEventView::WorkerError { prompt_id, error } => if prompt_id == id {
            complains("Worker error: "@ + error + "\n"@)
        } else {
            prints(Seq::empty(), true)
        },
        DaemonEventView::Error { message } => complains("Error: "@ + message + "\n"@),
        _ => prints(Seq::empty(), true),
    }
}

/// Print something and watch on, or not.
fn print_step(out: String, go_on: bool) -> (r: AttachStep)
    ensures
        r@ == prints(out@, go_on),
{
    let err: String = String::new();
    proof {
        assert(err@ =~= Seq::<char>::empty());
    }
    AttachStep { out, err, go_on, failed: false }
}

/// Print nothing and watch on, or not.
fn quiet_step(go_on: bool) -> (r: AttachStep)
    ensures
        r@ == prints(Seq::empty(), go_on),
{
    let out: String = String::new();
    proof {
        assert(out@ =~= Seq::<char>::empty());
    }
    print_step(out, go_on)
}

/// Complain and stop.
fn complain(err: String) -> (r: AttachStep)
    ensures
        r@ == complains(err@),
{
    let out: String = String::new();
    proof {
        assert(out@ =~= Seq::<char>::empty());
    }
    AttachStep { out, err, go_on: false, failed: true }
}

/// What to do about how things stand, while the prompt `id` is watched.
fn attach_snapshot(id: usize, prompts: &Vec<PromptInfo>) -> (r: AttachStep)
    ensures
        r@ == match prompt_info(info_views(prompts@), id) {
            None => complains("Prompt #"@ + text::decimal(id as nat) + " not found.\n"@),
            Some(info) => if info.status == "Completed"@ || info.status == "Failed"@ {
                prints(
                    match info.output {
                        Some(o) => o,
                        None => Seq::empty(),
                    },
                    false,
                )
            } else {
                prints(Seq::empty(), true)
            },
        },
{
    let ghost all = info_views(prompts@);
    let mut i: usize = 0;
    proof {
        assert(all.skip(0) =~= all);
    }
    while i < prompts.len()
        invariant
            i <= prompts.len(),
            all == info_views(prompts@),
            prompt_info(all, id) == prompt_info(all.skip(i as int), id),
        decreases prompts.len() - i,
    {
        let info: &PromptInfo = &prompts[i];
        proof {
            assert(all.skip(i as int)[0] == info@);
            assert(all.skip(i as int).skip(1) =~= all.skip(i + 1));
        }
        if info.id == id {
            if text::same(info.status.as_str(), "Completed") || text::same(
                info.status.as_str(),
                "Failed",
            ) {
                return match &info.output {
                    Some(o) => print_step(o.clone(), false),
                    None => quiet_step(false),
                };
            }
            return quiet_step(true);
        }
        i = i + 1;
    }
    let n: String = text::number(id as u128);
    complain(text::cat3("Prompt #", n.as_str(), " not found.\n"))
}

/// What to do about an event while the prompt `id` is watched.
pub fn attach_event(id: usize, event: &DaemonEvent) -> (r: AttachStep)
    ensures
        r@ == watched(id, event@),
{
    match event {
        DaemonEvent::StateSnapshot(state) => attach_snapshot(id, &state.prompts),
        DaemonEvent::OutputChunk { prompt_id, text } => {
            if *prompt_id == id {
                print_step(text.clone(), true)
            } else {
                quiet_step(true)
            }
        },
        DaemonEvent::PromptOutput { prompt_id, full_text } => {
            if *prompt_id == id {
                print_step(full_text.clone(), false)
            } else {
                quiet_step(true)
            }
        },
        DaemonEvent::WorkerFinished { prompt_id, .. } => quiet_step(*prompt_id != id),
        DaemonEvent::WorkerError { prompt_id, error } => {
            if *prompt_id == id {
                complain(text::cat3("Worker error: ", error.as_str(), "\n"))
            } else {
                quiet_step(true)
            }
        },
        DaemonEvent::Error { message } => complain(text::cat3("Error: ", message.as_str(), "\n")),
        _ => quiet_step(true),
    }
}

/// Whether output of the terminal of a prompt is printed while `id` is
/// watched. It never ends the watch.
pub fn attach_pty(id: usize, prompt_id: usize) -> (r: bool)
    ensures
        r == (prompt_id == id),
{
    prompt_id == id
}

/// While a prompt is watched, its output is printed as it comes, and that of no
/// other. The watch ends exactly where the prompt is not there, is at its end,
/// its worker ends or fails, or the daemon complains; and it fails exactly where
/// there is something to complain about.
pub proof fn only_the_watched_prompt_is_shown(id: usize, event: DaemonEventView)
    ensures
        ({
            let r = watched(id, event);
            &&& event matches DaemonEventView::OutputChunk { prompt_id, text } ==> r.go_on
                && !r.failed && r.err.len() == 0 && (prompt_id == id ==> r.out == text) && (prompt_id
                != id ==> r.out.len() == 0)
            &&& event matches DaemonEventView::PromptOutput { prompt_id, full_text } ==> !r.failed
                && r.err.len() == 0 && (prompt_id == id ==> r.out == full_text && !r.go_on) && (
            prompt_id != id ==> r.out.len() == 0 && r.go_on)
            &&& event matches DaemonEventView::WorkerFinished { prompt_id, .. } ==> !r.failed
                && r.out.len() == 0 && r.err.len() == 0 && (r.go_on <==> prompt_id != id)
            &&& event matches DaemonEventView::WorkerError { prompt_id, error } ==> r.out.len() == 0
                && (prompt_id == id ==> !r.go_on && r.failed && r.err == "Worker error: "@ + error
                + "\n"@) && (prompt_id != id ==> r.go_on && !r.failed && r.err.len() == 0)
            &&& event matches DaemonEventView::Error { message } ==> !r.go_on && r.failed
                && r.out.len() == 0 && r.err == "Error: "@ + message + "\n"@
            &&& r.failed ==> !r.go_on
        }),
{
}

/// A prompt that is not there, or that is at its end, is not watched; of one
/// that is at its end, the whole output is printed.
pub proof fn ended_prompts_are_printed(
    id: usize,
    state: crate::protocol::DaemonStateView,
    i: int,
)
    ensures
        ({
            let r = watched(id, DaemonEventView::StateSnapshot(state));
            let ps = state.prompts;
            &&& (forall|k: int| 0 <= k < ps.len() ==> (#[trigger] ps[k]).id != id) ==> r.failed
                && !r.go_on && r.err == "Prompt #"@ + text::decimal(id as nat) + " not found.\n"@
            &&& 0 <= i < ps.len() && ps[i].id == id && (forall|k: int|
                0 <= k < i ==> (#[trigger] ps[k]).id != id) ==> {
                let over = ps[i].status == "Completed"@ || ps[i].status == "Failed"@;
                &&& !r.failed
                &&& r.err.len() == 0
                &&& r.go_on <==> !over
                &&& !over ==> r.out.len() == 0
                &&& over ==> (ps[i].output matches Some(o) ==> r.out == o) && (ps[i].output is None
                    ==> r.out.len() == 0)
            }
        }),
{
    first_info_is_found(state.prompts, id, i);
}

/// The prompt of a number is the first that has it.
proof fn first_info_is_found(ps: Seq<PromptInfoView>, id: usize, i: int)
    ensures
        (forall|k: int| 0 <= k < ps.len() ==> (#[trigger] ps[k]).id != id) ==> prompt_info(
            ps,
            id,
        ) is None,
        0 <= i < ps.len() && ps[i].id == id && (forall|k: int|
            0 <= k < i ==> (#[trigger] ps[k]).id != id) ==> prompt_info(ps, id) == Some(ps[i]),
    decreases ps.len(),
{
    if ps.len() > 0 {
        let rest = ps.skip(1);
        first_info_is_found(rest, id, i - 1);
        assert forall|k: int| 1 <= k < ps.len() implies ps[k] == #[trigger] rest[k - 1] by {}
        if forall|k: int| 0 <= k < ps.len() ==> (#[trigger] ps[k]).id != id {
            assert forall|k: int| 0 <= k < rest.len() implies (#[trigger] rest[k]).id != id by {
                assert(ps[k + 1].id != id);
            }
            assert(ps[0].id != id);
        }
        if 0 < i < ps.len() && ps[i].id == id && (forall|k: int|
            0 <= k < i ==> (#[trigger] ps[k]).id != id) {
            assert forall|k: int| 0 <= k < i - 1 implies (#[trigger] rest[k]).id != id by {
                assert(ps[k + 1].id != id);
            }
            assert(ps[0].id != id);
            assert(rest[i - 1] == ps[i]);
        }
    }
}

/// Watching begins with a subscription and the state, for the number that the
/// first argument names; without one nothing is asked.
pub proof fn attaching_asks_for_the_prompt(
    args: Seq<Seq<char>>,
    r: Result<Attachment, Reply>,
)
    requires
        attach_asked(args, r),
    ensures
        r is Ok <==> args.len() > 0 && text::number_in(args[0], usize::MAX as nat) is Some,
        r matches Ok(a) ==> text::number_in(args[0], usize::MAX as nat) == Some(a.id as nat)
            && a.requests@.len() == 2 && a.requests@[0] == ClientRequest::Subscribe && a.requests@[1]
            == ClientRequest::GetState,
{
}

} // verus!
