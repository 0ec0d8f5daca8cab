//! `flow`: hand everything on to the scheduler.

use vstd::prelude::*;
use vstd::string::*;

use super::reply::{says, Reply};
use crate::paths::{join_path, joined_path};
use crate::text;

verus! {

/// The program of the scheduler.
pub const SCHEDULER_BINARY: &'static str = "clhorde-scheduler";

/// A program to run.
#[derive(Debug, PartialEq)]
pub struct FlowCall {
    pub binary: String,
    pub args: Vec<String>,
}

/// Where the scheduler would be beside this program.
pub fn sibling_binary(exe_dir: &Option<String>) -> (r: Option<String>)
    ensures
        text::text_option(r) == match *exe_dir {
            Some(d) => Some(joined_path(d@, SCHEDULER_BINARY@)),
            None => None,
        },
{
    match exe_dir {
        Some(d) => Some(join_path(d.as_str(), SCHEDULER_BINARY)),
        None => None,
    }
}

/// The program to run: the scheduler beside this program, if it is there, or
/// else the one that is found by its name. The arguments are handed on.
pub fn cmd_flow(args: &[String], sibling: Option<String>, sibling_exists: bool) -> (r: FlowCall)
    ensures
        text::texts(r.args@) == text::texts(args@),
        r.binary@ == match sibling {
            Some(s) => if sibling_exists {
                s@
            } else {
                SCHEDULER_BINARY@
            },
            None => SCHEDULER_BINARY@,
        },
{
    let binary: String = match sibling {
        Some(s) => if sibling_exists {
            s
        } else {
            text::owned(SCHEDULER_BINARY)
        },
        None => text::owned(SCHEDULER_BINARY),
    };
    let rest: Vec<String> = text::owned_from(args, 0);
    proof {
        assert(text::texts(args@).skip(0) =~= text::texts(args@));
    }
    FlowCall { binary, args: rest }
}

/// How a run of the scheduler went.
#[derive(Debug, PartialEq)]
pub enum FlowRun {
    /// It ended, with a code where it has one.
    Exited(Option<i32>),
    /// It could not be started.
    NotStarted(String),
}

/// What to print after the scheduler ran, and the exit code.
pub fn flow_reply(binary: &str, run: &FlowRun) -> (r: Reply)
    ensures
        match *run {
            FlowRun::Exited(code) => says(
                r,
                match code {
                    Some(c) => c as int,
                    None => 1,
                },
                Seq::empty(),
                Seq::empty(),
            ),
            FlowRun::NotStarted(e) => says(
                r,
                1,
                Seq::empty(),
                "error: failed to execute "@ + binary@ + ": "@ + e@
                    + "\nhint: install clhorde-scheduler or put it on PATH alongside clhorde-cli\n"@,
            ),
        },
{
    match run {
        FlowRun::Exited(code) => {
            let out: String = String::new();
            let err: String = String::new();
            proof {
                assert(out@ =~= Seq::<char>::empty());
                assert(err@ =~= Seq::<char>::empty());
            }
            let code: i32 = match code {
                Some(c) => *c,
                None => 1,
            };
            Reply { code, out, err }
        },
        FlowRun::NotStarted(e) => Reply::failure(
            text::cat5(
                "error: failed to execute ",
                binary,
                ": ",
                e.as_str(),
                "\nhint: install clhorde-scheduler or put it on PATH alongside clhorde-cli\n",
            ),
        ),
    }
}

} // verus!
