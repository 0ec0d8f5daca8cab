//! The first argument of the command line.

use vstd::prelude::*;
use vstd::string::*;

use super::attach::{attach_asked, cmd_attach, Attachment};
use super::config::{cmd_config, config_asked, ConfigCommand};
use super::keys_command::{cmd_keys, keys_asked, KeysCommand};
use super::qp::{cmd_qp, qp_asked, QpCommand};
use super::reply::{says, Reply};
use super::status::{cmd_status, status_asked};
use super::store::{cmd_store, store_asked, StoreCommand};
use super::submit::{cmd_submit, submit_asked};
use crate::protocol::ClientRequest;
use crate::text;

verus! {

/// The help text.
pub const HELP: &'static str = "clhorde-cli 0.1.0\nCLI utilities for clhorde configuration and prompt management.\n\nUsage: clhorde-cli <command> [options]\n\nCommands:\n  store               Manage persisted prompts\n    list              List all stored prompts\n    count             Show prompt counts by state\n    path              Print storage directory path\n    drop <filter>     Delete stored prompts\n    keep <filter>     Keep only matching, delete rest\n    clean-worktrees   Remove lingering git worktrees\n  qp                  Manage quick prompts\n    list              List all quick prompts\n    add <key> <msg>   Add a quick prompt\n    remove <key>      Remove a quick prompt\n  keys                Manage keybindings\n    list [mode]       List keybindings (all or by mode)\n    set <mode> <action> <key1...>\n                      Set keys for an action\n    reset <mode> [action]\n                      Reset bindings to defaults\n  config              Manage config file\n    path              Print config file path\n    edit              Open config in $EDITOR\n    init [--force]    Create config with defaults\n\nModes: normal, insert, view, interact, filter\n\nFilters for drop/keep: all, completed, failed, pending\n\nExamples:\n  clhorde-cli store list\n  clhorde-cli store drop all\n  clhorde-cli store drop failed\n  clhorde-cli store keep completed\n  clhorde-cli qp add g \"let's go\"\n  clhorde-cli keys set normal quit Q\n  clhorde-cli keys list normal\n  clhorde-cli config init\n";

/// What the command line comes to.
#[derive(Debug, PartialEq)]
pub enum CliStep {
    /// Nothing but to print this.
    Done(Reply),
    Store(StoreCommand),
    Qp(QpCommand),
    Keys(KeysCommand),
    Config(ConfigCommand),
    /// Send these to the daemon, and wait for the prompt to be added.
    Submit(Vec<ClientRequest>),
    /// Ask the daemon this, and print its state.
    Status(ClientRequest),
    /// Watch a prompt.
    Attach(Attachment),
    /// Hand these arguments to the scheduler.
    Flow(Vec<String>),
}

/// The exit code, where the command line comes to nothing else.
pub open spec fn code_of(s: CliStep) -> Option<i32> {
    match s {
        CliStep::Done(r) => Some(r.code),
        _ => None,
    }
}

impl CliStep {
    /// The exit code, where the command line comes to nothing else.
    pub fn code(&self) -> (r: Option<i32>)
        ensures
            r == code_of(*self),
    {
        match self {
            CliStep::Done(r) => Some(r.code),
            _ => None,
        }
    }
}

/// The help text, with the given code.
fn help(code: i32) -> (r: CliStep)
    ensures
        r matches CliStep::Done(x) && says(x, code as int, HELP@, Seq::empty()),
{
    let err: String = String::new();
    proof {
        assert(err@ =~= Seq::<char>::empty());
    }
    CliStep::Done(Reply { code, out: text::owned(HELP), err })
}

/// Whether `r` is what the command line `a` comes to.
pub open spec fn comes_to(a: Seq<Seq<char>>, r: CliStep) -> bool {
    let rest = a.skip(2);
    if a.len() < 2 {
        r matches CliStep::Done(x) && says(x, 1, HELP@, Seq::empty())
    } else if a[1] == "help"@ || a[1] == "--help"@ || a[1] == "-h"@ {
        r matches CliStep::Done(x) && says(x, 0, HELP@, Seq::empty())
    } else if a[1] == "store"@ {
        match r {
            CliStep::Store(c) => store_asked(rest, Ok(c)),
            CliStep::Done(x) => store_asked(rest, Err(x)),
            _ => false,
        }
    } else if a[1] == "qp"@ {
        match r {
            CliStep::Qp(c) => qp_asked(rest, Ok(c)),
            CliStep::Done(x) => qp_asked(rest, Err(x)),
            _ => false,
        }
    } else if a[1] == "keys"@ {
        match r {
            CliStep::Keys(c) => keys_asked(rest, Ok(c)),
            CliStep::Done(x) => keys_asked(rest, Err(x)),
            _ => false,
        }
    } else if a[1] == "config"@ {
        match r {
            CliStep::Config(c) => config_asked(rest, Ok(c)),
            CliStep::Done(x) => config_asked(rest, Err(x)),
            _ => false,
        }
    } else if a[1] == "submit"@ {
        match r {
            CliStep::Submit(c) => submit_asked(rest, Ok(c)),
            CliStep::Done(x) => submit_asked(rest, Err(x)),
            _ => false,
        }
    } else if a[1] == "status"@ {
        match r {
            CliStep::Status(c) => status_asked(rest, Ok(c)),
            CliStep::Done(x) => status_asked(rest, Err(x)),
            _ => false,
        }
    } else if a[1] == "attach"@ {
        match r {
            CliStep::Attach(c) => attach_asked(rest, Ok(c)),
            CliStep::Done(x) => attach_asked(rest, Err(x)),
            _ => false,
        }
    } else if a[1] == "flow"@ {
        r matches CliStep::Flow(args) && text::texts(args@) == rest
    } else {
        r matches CliStep::Done(x) && says(x, 1, HELP@, Seq::empty())
    }
}

/// What the command line comes to: its second argument names the command, and
/// those behind it are for that.
pub fn run(args: &[String]) -> (r: CliStep)
    ensures
        comes_to(text::texts(args@), r),
{
    if args.len() < 2 {
        return help(1);
    }
    let name: &str = args[1].as_str();
    let rest: Vec<String> = text::owned_from(args, 2);
    proof {
        assert(text::texts(args@)[1] == name@);
    }
    if text::same(name, "help") || text::same(name, "--help") || text::same(name, "-h") {
        help(0)
    } else if text::same(name, "store") {
        match cmd_store(rest.as_slice()) {
            Ok(c) => CliStep::Store(c),
            Err(x) => CliStep::Done(x),
        }
    } else if text::same(name, "qp") {
        match cmd_qp(rest.as_slice()) {
            Ok(c) => CliStep::Qp(c),
            Err(x) => CliStep::Done(x),
        }
    } else if text::same(name, "keys") {
        match cmd_keys(rest.as_slice()) {
            Ok(c) => CliStep::Keys(c),
            Err(x) => CliStep::Done(x),
        }
    } else if text::same(name, "config") {
        match cmd_config(rest.as_slice()) {
            Ok(c) => CliStep::Config(c),
            Err(x) => CliStep::Done(x),
        }
    } else if text::same(name, "submit") {
        match cmd_submit(rest.as_slice()) {
            Ok(c) => CliStep::Submit(c),
            Err(x) => CliStep::Done(x),
        }
    } else if text::same(name, "status") {
        match cmd_status(rest.as_slice()) {
            Ok(c) => CliStep::Status(c),
            Err(x) => CliStep::Done(x),
        }
    } else if text::same(name, "attach") {
        match cmd_attach(rest.as_slice()) {
            Ok(c) => CliStep::Attach(c),
            Err(x) => CliStep::Done(x),
        }
    } else if text::same(name, "flow") {
        CliStep::Flow(rest)
    } else {
        help(1)
    }
}

/// Each command is carried out under its own name and no other, with the
/// arguments behind it; what is no command is answered with the help text, and
/// only a request for help counts as success.
pub proof fn commands_go_by_their_names(a: Seq<Seq<char>>, r: CliStep)
    requires
        comes_to(a, r),
    ensures
        r is Store ==> a.len() >= 2 && a[1] == "store"@,
        r is Qp ==> a.len() >= 2 && a[1] == "qp"@,
        r is Keys ==> a.len() >= 2 && a[1] == "keys"@,
        r is Config ==> a.len() >= 2 && a[1] == "config"@,
        r is Submit ==> a.len() >= 2 && a[1] == "submit"@,
        r is Status ==> a.len() >= 2 && a[1] == "status"@,
        r is Attach ==> a.len() >= 2 && a[1] == "attach"@,
        r is Flow <==> a.len() >= 2 && a[1] == "flow"@,
        r matches CliStep::Flow(args) ==> text::texts(args@) == a.skip(2),
        r matches CliStep::Store(c) ==> store_asked(a.skip(2), Ok(c)),
        r matches CliStep::Qp(c) ==> qp_asked(a.skip(2), Ok(c)),
        r matches CliStep::Keys(c) ==> keys_asked(a.skip(2), Ok(c)),
        r matches CliStep::Config(c) ==> config_asked(a.skip(2), Ok(c)),
        r matches CliStep::Submit(c) ==> submit_asked(a.skip(2), Ok(c)),
        r matches CliStep::Status(c) ==> status_asked(a.skip(2), Ok(c)),
        r matches CliStep::Attach(c) ==> attach_asked(a.skip(2), Ok(c)),
        a.len() < 2 ==> (r matches CliStep::Done(x) && x.code == 1 && x.out@ == HELP@),
        a.len() >= 2 && (a[1] == "help"@ || a[1] == "--help"@ || a[1] == "-h"@) ==> (
        r matches CliStep::Done(x) && x.code == 0 && x.out@ == HELP@),
{
    reveal_strlit("help");
    reveal_strlit("--help");
    reveal_strlit("-h");
    reveal_strlit("store");
    reveal_strlit("qp");
    reveal_strlit("keys");
    reveal_strlit("config");
    reveal_strlit("submit");
    reveal_strlit("status");
    reveal_strlit("attach");
    reveal_strlit("flow");
    assert("help"@[0] == 'h' && "--help"@[0] == '-' && "-h"@[0] == '-' && "store"@[0] == 's'
        && "qp"@[0] == 'q' && "keys"@[0] == 'k' && "config"@[0] == 'c' && "submit"@[0] == 's'
        && "status"@[0] == 's' && "attach"@[0] == 'a' && "flow"@[0] == 'f');
}

} // verus!
