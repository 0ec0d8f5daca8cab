//! `submit`: hand a prompt to the daemon.

use vstd::prelude::*;
use vstd::string::*;

use super::reply::{says, Reply};
use crate::protocol::{submission, ClientRequest, DaemonEvent, Submission};
use crate::text;

verus! {

/// The usage text.
pub const SUBMIT_USAGE: &'static str = "Usage: clhorde-cli submit \"prompt text\" [--mode interactive|one-shot] [--cwd path] [--worktree]\n";

/// The complaint about a mode without a value.
pub const MODE_VALUE: &'static str = "--mode requires a value (interactive or one-shot)\n";

/// The complaint about a directory without a value.
pub const CWD_VALUE: &'static str = "--cwd requires a path\n";

/// What the arguments say.
#[derive(Debug, PartialEq)]
pub struct SubmitArgs {
    pub text: Option<String>,
    pub mode: String,
    pub cwd: Option<String>,
    pub worktree: bool,
}

/// What [`SubmitArgs`] hold.
pub ghost struct SubmitView {
    pub text: Option<Seq<char>>,
    pub mode: Seq<char>,
    pub cwd: Option<Seq<char>>,
    pub worktree: bool,
}

impl View for SubmitArgs {
    type V = SubmitView;

    open spec fn view(&self) -> SubmitView {
        SubmitView {
            text: text::text_option(self.text),
            mode: self.mode@,
            cwd: text::text_option(self.cwd),
            worktree: self.worktree,
        }
    }
}

/// What is said before the first argument.
pub open spec fn nothing_said() -> SubmitView {
    SubmitView { text: None, mode: "interactive"@, cwd: None, worktree: false }
}

/// What the arguments say on top of `said`, or the complaint about them.
pub open spec fn submit_said(args: Seq<Seq<char>>, said: SubmitView) -> Result<
    SubmitView,
    Seq<char>,
>
    decreases args.len(),
{
    if args.len() == 0 {
        Ok(said)
    } else if args[0] == "--mode"@ {
        if args.len() < 2 {
            Err(MODE_VALUE@)
        } else if args[1] == "interactive"@ || args[1] == "one-shot"@ {
            submit_said(args.skip(2), SubmitView { mode: args[1], ..said })
        } else {
            Err("Unknown mode: "@ + args[1] + "\nValid modes: interactive, one-shot\n"@)
        }
    } else if args[0] == "--cwd"@ {
        if args.len() < 2 {
            Err(CWD_VALUE@)
        } else {
            submit_said(args.skip(2), SubmitView { cwd: Some(args[1]), ..said })
        }
    } else if args[0] == "--worktree"@ {
        submit_said(args.skip(1), SubmitView { worktree: true, ..said })
    } else if said.text is None && !(args[0].len() > 0 && args[0][0] == '-') {
        submit_said(args.skip(1), SubmitView { text: Some(args[0]), ..said })
    } else {
        Err("Unexpected argument: "@ + args[0] + "\n"@)
    }
}

/// Whether an argument begins with a dash.
fn is_flag(arg: &str) -> (r: bool)
    ensures
        r == (arg@.len() > 0 && arg@[0] == '-'),
{
    arg.unicode_len() > 0 && arg.get_char(0) == '-'
}

/// What the arguments say, or the complaint about them.
pub fn parse_submit(args: &[String]) -> (r: Result<SubmitArgs, String>)
    ensures
        match submit_said(text::texts(args@), nothing_said()) {
            Ok(s) => r matches Ok(x) && x@ == s,
            Err(e) => r matches Err(x) && x@ == e,
        },
{
    let ghost all = text::texts(args@);
    let mut said = SubmitArgs {
        text: None,
        mode: text::owned("interactive"),
        cwd: None,
        worktree: false,
    };
    let mut i: usize = 0;
    proof {
        assert(all.skip(0) =~= all);
    }
    while i < args.len()
        invariant
            i <= args.len(),
            all == text::texts(args@),
            submit_said(all, nothing_said()) == submit_said(all.skip(i as int), said@),
        decreases args.len() - i,
    {
        let arg: &str = args[i].as_str();
        proof {
            let rest = all.skip(i as int);
            assert(rest[0] == arg@);
            assert(rest.skip(1) =~= all.skip(i + 1));
            if i + 1 < args.len() {
                assert(rest[1] == args@[i + 1]@);
                assert(rest.skip(2) =~= all.skip(i + 2));
            }
        }
        if text::same(arg, "--mode") {
            if i + 1 >= args.len() {
                return Err(text::owned(MODE_VALUE));
            }
            let value: &str = args[i + 1].as_str();
            if text::same(value, "interactive") || text::same(value, "one-shot") {
                said.mode = text::owned(value);
            } else {
                return Err(
                    text::cat3(
                        "Unknown mode: ",
                        value,
                        "\nValid modes: interactive, one-shot\n",
                    ),
                );
            }
            i = i + 2;
        } else if text::same(arg, "--cwd") {
            if i + 1 >= args.len() {
                return Err(text::owned(CWD_VALUE));
            }
            said.cwd = Some(args[i + 1].clone());
            i = i + 2;
        } else if text::same(arg, "--worktree") {
            said.worktree = true;
            i = i + 1;
        } else if said.text.is_none() && !is_flag(arg) {
            said.text = Some(text::owned(arg));
            i = i + 1;
        } else {
            return Err(text::cat3("Unexpected argument: ", arg, "\n"));
        }
    }
    proof {
        assert(all.skip(all.len() as int) =~= Seq::<Seq<char>>::empty());
    }
    Ok(said)
}

/// The prompt that the arguments ask for.
pub open spec fn asked_prompt(s: SubmitView) -> Submission {
    Submission {
        text: s.text->0,
        cwd: s.cwd,
        mode: s.mode,
        worktree: s.worktree,
        tags: Seq::empty(),
        depends_on: Seq::empty(),
        worktree_id: None,
    }
}

/// What `submit` with these arguments asks the daemon, or says instead.
pub open spec fn submit_asked(args: Seq<Seq<char>>, r: Result<Vec<ClientRequest>, Reply>) -> bool {
    match submit_said(args, nothing_said()) {
        Err(e) => r matches Err(x) && says(x, 1, Seq::empty(), e),
        Ok(s) => if s.text is None {
            r matches Err(x) && says(x, 1, Seq::empty(), SUBMIT_USAGE@)
        } else {
            &&& r matches Ok(requests)
            &&& requests@.len() == 2
            &&& requests@[0] is Subscribe
            &&& submission(requests@[1]) == Some(asked_prompt(s))
        },
    }
}

/// The requests that submit a prompt: to be told what comes of it, and then
/// the prompt.
pub fn cmd_submit(args: &[String]) -> (r: Result<Vec<ClientRequest>, Reply>)
    ensures
        submit_asked(text::texts(args@), r),
{
    match parse_submit(args) {
        Err(e) => Err(Reply::failure(e)),
        Ok(said) => {
            let SubmitArgs { text, mode, cwd, worktree } = said;
            match text {
                None => Err(Reply::failure(text::owned(SUBMIT_USAGE))),
                Some(text) => {
                    let tags: Vec<String> = Vec::new();
                    let depends_on: Vec<String> = Vec::new();
                    proof {
                        assert(text::texts(tags@) =~= Seq::<Seq<char>>::empty());
                        assert(text::texts(depends_on@) =~= Seq::<Seq<char>>::empty());
                    }
                    let submit = ClientRequest::SubmitPrompt {
                        text,
                        cwd,
                        mode,
                        worktree,
                        tags,
                        depends_on,
                        worktree_id: None,
                    };
                    Ok(vec![ClientRequest::Subscribe, submit])
                },
            }
        },
    }
}

/// Whether `r` is the reply to an event while an answer is waited for.
pub open spec fn submit_answer(event: DaemonEvent, r: Option<Reply>) -> bool {
    match event {
        DaemonEvent::PromptAdded(info) => r matches Some(x) && says(
            x,
            0,
            "Submitted prompt #"@ + text::decimal(info.id as nat) + "\n"@,
            Seq::empty(),
        ),
        DaemonEvent::Error { message } => r matches Some(x) && says(
            x,
            1,
            Seq::empty(),
            "Error: "@ + message@ + "\n"@,
        ),
        _ => r is None,
    }
}

/// What to do about an event while an answer is waited for: the reply, or
/// `None` to wait on.
pub fn submit_event(event: &DaemonEvent) -> (r: Option<Reply>)
    ensures
        submit_answer(*event, r),
{
    match event {
        DaemonEvent::PromptAdded(info) => {
            let id: String = text::number(info.id as u128);
            Some(Reply::success(text::cat3("Submitted prompt #", id.as_str(), "\n")))
        },
        DaemonEvent::Error { message } => Some(super::reply::daemon_error(message.as_str())),
        _ => None,
    }
}

/// An answer is waited for until the prompt was added, which is a success, or
/// the daemon complains, which is a failure.
pub proof fn submitting_waits_for_the_prompt(event: DaemonEvent, r: Option<Reply>)
    requires
        submit_answer(event, r),
    ensures
        r is Some <==> event is PromptAdded || event is Error,
        event matches DaemonEvent::PromptAdded(info) ==> (r matches Some(x) && says(
            x,
            0,
            "Submitted prompt #"@ + text::decimal(info.id as nat) + "\n"@,
            Seq::empty(),
        )),
        event matches DaemonEvent::Error { message } ==> (r matches Some(x) && says(
            x,
            1,
            Seq::empty(),
            "Error: "@ + message@ + "\n"@,
        )),
{
}

/// Each argument says its own thing and nothing else: the mode, the directory,
/// that a worktree is wanted, or the text, once. A flag that is not known, a
/// mode that there is not, a value that is missing and a second text are
/// refused.
pub proof fn arguments_say_one_thing(said: SubmitView, word: Seq<char>)
    ensures
        submit_said(Seq::empty(), said) == Ok::<SubmitView, Seq<char>>(said),
        submit_said(seq!["--worktree"@], said) == Ok::<SubmitView, Seq<char>>(
            SubmitView { worktree: true, ..said },
        ),
        submit_said(seq!["--cwd"@, word], said) == Ok::<SubmitView, Seq<char>>(
            SubmitView { cwd: Some(word), ..said },
        ),
        word == "interactive"@ || word == "one-shot"@ ==> submit_said(
            seq!["--mode"@, word],
            said,
        ) == Ok::<SubmitView, Seq<char>>(SubmitView { mode: word, ..said }),
        word != "interactive"@ && word != "one-shot"@ ==> submit_said(
            seq!["--mode"@, word],
            said,
        ) is Err,
        submit_said(seq!["--mode"@], said) is Err,
        submit_said(seq!["--cwd"@], said) is Err,
        word.len() > 0 && word[0] == '-' && word != "--mode"@ && word != "--cwd"@ && word
            != "--worktree"@ ==> submit_said(seq![word], said) is Err,
        !(word.len() > 0 && word[0] == '-') && said.text is None ==> submit_said(seq![word], said)
            == Ok::<SubmitView, Seq<char>>(SubmitView { text: Some(word), ..said }),
        !(word.len() > 0 && word[0] == '-') && said.text is Some ==> submit_said(
            seq![word],
            said,
        ) is Err,
{
    reveal_with_fuel(submit_said, 2);
    reveal_strlit("--mode");
    reveal_strlit("--cwd");
    reveal_strlit("--worktree");
    assert("--mode"@[0] == '-' && "--cwd"@[0] == '-' && "--worktree"@[0] == '-');
    assert("--mode"@.len() == 6 && "--cwd"@.len() == 5 && "--worktree"@.len() == 10);
    assert(seq!["--worktree"@].skip(1) =~= Seq::<Seq<char>>::empty());
    assert(seq!["--cwd"@, word].skip(2) =~= Seq::<Seq<char>>::empty());
    assert(seq!["--mode"@, word].skip(2) =~= Seq::<Seq<char>>::empty());
    assert(seq![word].skip(1) =~= Seq::<Seq<char>>::empty());
}

/// Arguments are read one after the other: what follows is read on top of what
/// was said before, and a complaint about the first is the complaint about all.
pub proof fn arguments_are_read_in_turn(
    a: Seq<Seq<char>>,
    b: Seq<Seq<char>>,
    said: SubmitView,
)
    requires
        submit_said(a, said) is Ok,
    ensures
        submit_said(a + b, said) == submit_said(b, submit_said(a, said)->Ok_0),
    decreases a.len(),
{
    let all = a + b;
    if a.len() == 0 {
        assert(all =~= b);
    } else {
        assert(all[0] == a[0]);
        if a[0] == "--mode"@ {
            assert(all[1] == a[1]);
            assert(all.skip(2) =~= a.skip(2) + b);
            arguments_are_read_in_turn(a.skip(2), b, SubmitView { mode: a[1], ..said });
        } else if a[0] == "--cwd"@ {
            assert(all[1] == a[1]);
            assert(all.skip(2) =~= a.skip(2) + b);
            arguments_are_read_in_turn(a.skip(2), b, SubmitView { cwd: Some(a[1]), ..said });
        } else if a[0] == "--worktree"@ {
            assert(all.skip(1) =~= a.skip(1) + b);
            arguments_are_read_in_turn(a.skip(1), b, SubmitView { worktree: true, ..said });
        } else {
            assert(all.skip(1) =~= a.skip(1) + b);
            arguments_are_read_in_turn(a.skip(1), b, SubmitView { text: Some(a[0]), ..said });
        }
    }
}

/// Where a text is said, the client first subscribes and then submits what was
/// said; where none is, nothing is sent. What is not said is: talking, in the
/// daemon's directory, without a worktree.
pub proof fn what_is_said_is_submitted(
    args: Seq<Seq<char>>,
    r: Result<Vec<ClientRequest>, Reply>,
)
    requires
        submit_asked(args, r),
    ensures
        r is Ok <==> (submit_said(args, nothing_said()) matches Ok(s) && s.text is Some),
        r matches Ok(q) ==> {
            let s = submit_said(args, nothing_said())->Ok_0;
            &&& q@.len() == 2
            &&& q@[0] == ClientRequest::Subscribe
            &&& submission(q@[1]) matches Some(p) && p.text == s.text->0 && p.cwd == s.cwd && p.mode
                == s.mode && p.worktree == s.worktree && p.tags.len() == 0 && p.depends_on.len()
                == 0 && p.worktree_id is None
        },
        r matches Err(x) ==> x.code == 1,
        nothing_said().mode == "interactive"@,
        nothing_said().text is None,
        nothing_said().cwd is None,
        !nothing_said().worktree,
{
}

} // verus!
