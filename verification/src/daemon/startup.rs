//! How the daemon is started: its arguments, and the file that keeps a second
//! one from starting.

use vstd::prelude::*;
use vstd::string::*;

use crate::text;

verus! {

/// How much is logged.
#[derive(Debug, Clone, Copy, PartialEq, Eq, Structural)]
pub enum LogLevel {
    Warn,
    Info,
    Debug,
}

/// The help text.
pub const USAGE: &'static str = "Usage: clhorded [OPTIONS]\n\nOptions:\n  -v       Enable info-level logging\n  -vv      Enable debug-level logging\n  --help   Print this help message\n";

/// How often `arg` stands among the arguments.
pub open spec fn times(args: Seq<Seq<char>>, arg: Seq<char>) -> nat
    decreases args.len(),
{
    if args.len() == 0 {
        0
    } else {
        times(args.drop_last(), arg) + (if args.last() == arg {
            1nat
        } else {
            0
        })
    }
}

/// How much is logged, or `None` where only the help text is wanted.
pub open spec fn level_asked(args: Seq<Seq<char>>) -> Option<LogLevel> {
    if times(args, "--help"@) + times(args, "-h"@) > 0 {
        None
    } else if times(args, "-vv"@) > 0 {
        Some(LogLevel::Debug)
    } else if times(args, "-v"@) == 0 {
        Some(LogLevel::Warn)
    } else if times(args, "-v"@) == 1 {
        Some(LogLevel::Info)
    } else {
        Some(LogLevel::Debug)
    }
}

/// There are no more of one argument than arguments.
proof fn times_bound(args: Seq<Seq<char>>, arg: Seq<char>)
    ensures
        times(args, arg) <= args.len(),
    decreases args.len(),
{
    if args.len() > 0 {
        times_bound(args.drop_last(), arg);
    }
}

/// How often `arg` stands among the arguments.
fn count(args: &[String], arg: &str) -> (r: usize)
    ensures
        r == times(text::texts(args@), arg@),
{
    let ghost all = text::texts(args@);
    let mut n: usize = 0;
    let mut i: usize = 0;
    while i < args.len()
        invariant
            i <= args.len(),
            n <= i,
            all == text::texts(args@),
            n == times(all.take(i as int), arg@),
        decreases args.len() - i,
    {
        proof {
            assert(all.take(i + 1).drop_last() =~= all.take(i as int));
            assert(all.take(i + 1).last() == args@[i as int]@);
            times_bound(all.take(i + 1), arg@);
        }
        if text::same(args[i].as_str(), arg) {
            n = n + 1;
        }
        i = i + 1;
    }
    proof {
        assert(all.take(all.len() as int) =~= all);
    }
    n
}

/// How much is logged, or `None` where only the help text is wanted.
pub fn parse_args_from(args: &[String]) -> (r: Option<LogLevel>)
    ensures
        r == level_asked(text::texts(args@)),
{
    if count(args, "--help") > 0 || count(args, "-h") > 0 {
        return None;
    }
    if count(args, "-vv") > 0 {
        return Some(LogLevel::Debug);
    }
    let n: usize = count(args, "-v");
    if n == 0 {
        Some(LogLevel::Warn)
    } else if n == 1 {
        Some(LogLevel::Info)
    } else {
        Some(LogLevel::Debug)
    }
}

/// The process id in a PID file, if there is one.
pub open spec fn pid_in(content: Seq<char>) -> Option<int> {
    let s = text::trimmed(content);
    if s.len() > 0 && s[0] == '-' {
        let d = s.skip(1);
        if d.len() > 0 && d[0] == '+' {
            None
        } else {
            match text::number_in(d, 0x8000_0000) {
                Some(n) => Some(-n),
                None => None,
            }
        }
    } else {
        match text::number_in(s, 0x7fff_ffff) {
            Some(n) => Some(n as int),
            None => None,
        }
    }
}

/// The process id in a PID file, if there is one.
pub fn parse_pid(content: &str) -> (r: Option<i32>)
    ensures
        (match r {
            Some(p) => Some(p as int),
            None => None,
        }) == pid_in(content@),
{
    let s: &str = text::trim(content);
    if s.unicode_len() > 0 && s.get_char(0) == '-' {
        let cs: Vec<char> = text::chars_of(s);
        if cs.len() > 1 && cs[1] == '+' {
            return None;
        }
        let digits: String = text::string_of(&cs, 1, cs.len());
        proof {
            assert(digits@ =~= text::trimmed(content@).skip(1));
        }
        return match text::parse_number(digits.as_str(), 0x8000_0000) {
            Some(n) => Some((-(n as i64)) as i32),
            None => None,
        };
    }
    match text::parse_number(s, 0x7fff_ffff) {
        Some(n) => Some(n as i32),
        None => None,
    }
}

/// The message where another daemon holds the PID file with this content.
pub open spec fn running_text(content: Seq<char>) -> Seq<char> {
    "Daemon already running"@ + match pid_in(content) {
        Some(p) => " (PID "@ + text::signed_decimal(p) + ")"@,
        None => Seq::empty(),
    }
}

/// The message where another daemon holds the PID file with this content.
pub fn already_running(content: &str) -> (r: String)
    ensures
        r@ == running_text(content@),
{
    match parse_pid(content) {
        Some(p) => {
            let n: String = text::signed_number(p as i64);
            let who: String = text::cat3(" (PID ", n.as_str(), ")");
            text::cat2("Daemon already running", who.as_str())
        },
        None => {
            let r: String = text::owned("Daemon already running");
            proof {
                assert(r@ =~= "Daemon already running"@ + Seq::<char>::empty());
            }
            r
        },
    }
}

/// Whether a process is there: it could be signalled, or it may not be.
pub fn process_alive(signalled: bool, not_permitted: bool) -> (r: bool)
    ensures
        r == (signalled || not_permitted),
{
    signalled || not_permitted
}

/// What came of trying to lock the PID file.
#[derive(Debug, PartialEq)]
pub enum LockTry {
    Locked,
    /// Another process holds it.
    Held,
    Failed(String),
}

/// Whether this daemon may run.
#[derive(Debug, PartialEq)]
pub enum PidLock {
    Refused { message: String },
    /// It may; `remove_socket` where the daemon before it left one behind.
    Taken { remove_socket: bool },
}

/// Whether `r` is what came of taking the lock file, whose text is `content`.
pub open spec fn lock_is(r: PidLock, tried: LockTry, content: Seq<char>, alive: bool) -> bool {
    match tried {
        LockTry::Locked => r == (PidLock::Taken {
            remove_socket: pid_in(content) is Some && !alive,
        }),
        LockTry::Held => r matches PidLock::Refused { message } && message@ == running_text(
            content,
        ),
        LockTry::Failed(e) => r matches PidLock::Refused { message } && message@
            == "Failed to lock PID file: "@ + e@,
    }
}

/// Whether this daemon may run, by what came of locking the PID file. `content`
/// is what the file holds, and `alive` says whether the process named there is
/// alive.
pub fn acquire_pid_lock(tried: LockTry, content: &str, alive: bool) -> (r: PidLock)
    ensures
        lock_is(r, tried, content@, alive),
{
    match tried {
        LockTry::Locked => {
            let stale: bool = match parse_pid(content) {
                Some(_) => !alive,
                None => false,
            };
            PidLock::Taken { remove_socket: stale }
        },
        LockTry::Held => PidLock::Refused { message: already_running(content) },
        LockTry::Failed(e) => PidLock::Refused {
            message: text::cat2("Failed to lock PID file: ", e.as_str()),
        },
    }
}

/// A daemon starts exactly where it gets the lock, so that no two run at once.
/// The socket of another is removed only where that one has left its number and
/// is not alive any more.
pub proof fn one_daemon_holds_the_lock(
    r: PidLock,
    tried: LockTry,
    content: Seq<char>,
    alive: bool,
)
    requires
        lock_is(r, tried, content, alive),
    ensures
        r is Taken <==> tried == LockTry::Locked,
        r is Refused <==> tried != LockTry::Locked,
        r matches PidLock::Taken { remove_socket } ==> (remove_socket <==> pid_in(content) is Some
            && !alive),
{
}

/// How many of the arguments are this one.
pub open spec fn given(args: Seq<Seq<char>>, arg: Seq<char>) -> nat {
    args.filter(|x: Seq<char>| x == arg).len()
}

/// Help is shown exactly where it is asked for. Otherwise `-vv`, or `-v` twice or
/// more, logs everything, `-v` once logs what goes on, and nothing logs warnings
/// alone.
pub proof fn verbosity_is_as_asked(args: Seq<Seq<char>>)
    ensures
        ({
            let help = given(args, "--help"@) > 0 || given(args, "-h"@) > 0;
            &&& level_asked(args) is None <==> help
            &&& !help ==> {
                &&& level_asked(args) == Some(LogLevel::Debug) <==> given(args, "-vv"@) > 0 || given(args, "-v"@)
                    >= 2
                &&& level_asked(args) == Some(LogLevel::Info) <==> given(args, "-vv"@) == 0 && given(args, "-v"@) == 1
                &&& level_asked(args) == Some(LogLevel::Warn) <==> given(args, "-vv"@) == 0 && given(args, "-v"@) == 0
            }
        }),
{
    times_are_counted(args, "--help"@);
    times_are_counted(args, "-h"@);
    times_are_counted(args, "-vv"@);
    times_are_counted(args, "-v"@);
}

/// How often an argument is given is how often it stands there.
proof fn times_are_counted(args: Seq<Seq<char>>, arg: Seq<char>)
    ensures
        times(args, arg) == given(args, arg),
    decreases args.len(),
{
    reveal(Seq::filter);
    if args.len() > 0 {
        times_are_counted(args.drop_last(), arg);
    }
}

} // verus!
