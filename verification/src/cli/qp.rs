//! `qp`: the quick prompts, messages that one key sends.

use vstd::prelude::*;
use vstd::string::*;

use super::reply::{says, Reply};
use crate::keymap::{key_named, parse_key, TomlConfig};
use crate::order::{sort_by_name, sorted_by_name, Named};
use crate::text;

verus! {

/// The usage text.
pub const QP_USAGE: &'static str = "Usage: clhorde-cli qp <list|add|remove>\n  list              List all quick prompts\n  add <key> <msg>   Add a quick prompt\n  remove <key>      Remove a quick prompt\n";

/// The usage text of `qp add`.
pub const ADD_USAGE: &'static str = "Usage: clhorde-cli qp add <key> <message...>\n";

/// The usage text of `qp remove`.
pub const REMOVE_USAGE: &'static str = "Usage: clhorde-cli qp remove <key>\n";

/// Which keys there are.
pub const VALID_KEYS: &'static str = "Valid keys: single characters (a-z, A-Z, 0-9, symbols) or Enter, Esc, Tab, Space, Up, Down, Left, Right, Backspace\n";

/// A command on the quick prompts, with the arguments that are left for it.
#[derive(Debug, PartialEq)]
pub enum QpCommand {
    List,
    Add { args: Vec<String> },
    Remove { args: Vec<String> },
}

/// Whether `r` is what the arguments come to.
pub open spec fn qp_asked(a: Seq<Seq<char>>, r: Result<QpCommand, Reply>) -> bool {
    if a.len() > 0 && a[0] == "list"@ {
        r matches Ok(QpCommand::List)
    } else if a.len() > 0 && a[0] == "add"@ {
        r matches Ok(QpCommand::Add { args: rest }) && text::texts(rest@) == a.skip(1)
    } else if a.len() > 0 && a[0] == "remove"@ {
        r matches Ok(QpCommand::Remove { args: rest }) && text::texts(rest@) == a.skip(1)
    } else {
        r matches Err(x) && says(x, 1, Seq::empty(), QP_USAGE@)
    }
}

/// The command that the arguments of `qp` ask for.
pub fn cmd_qp(args: &[String]) -> (r: Result<QpCommand, Reply>)
    ensures
        qp_asked(text::texts(args@), r),
{
    if args.len() == 0 {
        return Err(Reply::failure(text::owned(QP_USAGE)));
    }
    let name: &str = args[0].as_str();
    proof {
        assert(text::texts(args@)[0] == name@);
    }
    if text::same(name, "list") {
        Ok(QpCommand::List)
    } else if text::same(name, "add") {
        Ok(QpCommand::Add { args: text::owned_from(args, 1) })
    } else if text::same(name, "remove") {
        Ok(QpCommand::Remove { args: text::owned_from(args, 1) })
    } else {
        Err(Reply::failure(text::owned(QP_USAGE)))
    }
}

impl<'a> Named for &'a (String, String) {
    open spec fn name_text(&self) -> Seq<char> {
        self.0@
    }

    fn name_str(&self) -> (r: &str) {
        self.0.as_str()
    }
}

/// The quick prompts of a configuration.
pub open spec fn quick_prompts(c: TomlConfig) -> Seq<(String, String)> {
    match c.quick_prompts {
        Some(qp) => qp@,
        None => Seq::empty(),
    }
}

/// The lines for some quick prompts.
pub open spec fn qp_lines(qps: Seq<&(String, String)>) -> Seq<char>
    decreases qps.len(),
{
    if qps.len() == 0 {
        Seq::empty()
    } else {
        qp_lines(qps.drop_last()) + (qps.last().0@ + " = \""@ + qps.last().1@ + "\"\n"@)
    }
}

/// The list of the quick prompts, in the order of their keys.
pub open spec fn qp_listing(qps: Seq<(String, String)>) -> Seq<char> {
    if qps.len() == 0 {
        "No quick prompts configured.\n"@
    } else {
        qp_lines(sorted_by_name(qps.map_values(|p: (String, String)| &p)))
    }
}

/// List the quick prompts.
pub fn qp_list(config: &TomlConfig) -> (r: Reply)
    ensures
        says(r, 0, qp_listing(quick_prompts(*config)), Seq::empty()),
{
    match &config.quick_prompts {
        None => Reply::success(text::owned("No quick prompts configured.\n")),
        Some(qps) => {
            if qps.len() == 0 {
                return Reply::success(text::owned("No quick prompts configured.\n"));
            }
            let mut refs: Vec<&(String, String)> = Vec::new();
            let ghost all = qps@.map_values(|p: (String, String)| &p);
            let mut i: usize = 0;
            while i < qps.len()
                invariant
                    i <= qps.len(),
                    all == qps@.map_values(|p: (String, String)| &p),
                    refs@ == all.take(i as int),
                decreases qps.len() - i,
            {
                refs.push(&qps[i]);
                proof {
                    assert(all.take(i + 1) =~= all.take(i as int).push(all[i as int]));
                }
                i = i + 1;
            }
            proof {
                assert(all.take(all.len() as int) =~= all);
            }
            let sorted: Vec<&(String, String)> = sort_by_name(refs);
            let mut out: String = String::new();
            let mut j: usize = 0;
            proof {
                assert(out@ =~= qp_lines(sorted@.take(0)));
            }
            while j < sorted.len()
                invariant
                    j <= sorted.len(),
                    out@ == qp_lines(sorted@.take(j as int)),
                decreases sorted.len() - j,
            {
                proof {
                    assert(sorted@.take(j + 1).drop_last() =~= sorted@.take(j as int));
                }
                let line: String = text::cat4(
                    sorted[j].0.as_str(),
                    " = \"",
                    sorted[j].1.as_str(),
                    "\"\n",
                );
                out.append(line.as_str());
                j = j + 1;
            }
            proof {
                assert(sorted@.take(sorted@.len() as int) =~= sorted@);
            }
            Reply::success(out)
        },
    }
}

/// The message of a key.
pub open spec fn message_of(qps: Seq<(Seq<char>, Seq<char>)>, key: Seq<char>) -> Option<Seq<char>>
    decreases qps.len(),
{
    if qps.len() == 0 {
        None
    } else if qps[0].0 == key {
        Some(qps[0].1)
    } else {
        message_of(qps.skip(1), key)
    }
}

/// The quick prompts with the message of a key set.
pub open spec fn with_message(
    qps: Seq<(Seq<char>, Seq<char>)>,
    key: Seq<char>,
    message: Seq<char>,
) -> Seq<(Seq<char>, Seq<char>)>
    decreases qps.len(),
{
    if qps.len() == 0 {
        seq![(key, message)]
    } else if qps[0].0 == key {
        seq![(key, message)] + qps.skip(1)
    } else {
        seq![qps[0]] + with_message(qps.skip(1), key, message)
    }
}

/// The quick prompts without the first message of a key.
pub open spec fn without_message(qps: Seq<(Seq<char>, Seq<char>)>, key: Seq<char>) -> Seq<
    (Seq<char>, Seq<char>),
>
    decreases qps.len(),
{
    if qps.len() == 0 {
        qps
    } else if qps[0].0 == key {
        qps.skip(1)
    } else {
        seq![qps[0]] + without_message(qps.skip(1), key)
    }
}

/// A message that is set is read back, and the others stay.
pub proof fn set_message_is_read_back(
    qps: Seq<(Seq<char>, Seq<char>)>,
    key: Seq<char>,
    message: Seq<char>,
    other: Seq<char>,
)
    ensures
        message_of(with_message(qps, key, message), other) == (if other == key {
            Some(message)
        } else {
            message_of(qps, other)
        }),
    decreases qps.len(),
{
    let r = with_message(qps, key, message);
    if qps.len() == 0 {
        assert(r.skip(1) =~= Seq::<(Seq<char>, Seq<char>)>::empty());
        assert(message_of(r.skip(1), other) is None);
    } else if qps[0].0 == key {
        assert(r.skip(1) =~= qps.skip(1));
    } else {
        set_message_is_read_back(qps.skip(1), key, message, other);
        assert(r.skip(1) =~= with_message(qps.skip(1), key, message));
    }
}

/// A message that is removed is gone where its key stood once, and the others
/// stay.
pub proof fn removed_message_is_gone(
    qps: Seq<(Seq<char>, Seq<char>)>,
    key: Seq<char>,
    other: Seq<char>,
)
    requires
        forall|i: int, j: int|
            0 <= i < j < qps.len() ==> (#[trigger] qps[i]).0 != (#[trigger] qps[j]).0,
    ensures
        message_of(without_message(qps, key), other) == (if other == key {
            None
        } else {
            message_of(qps, other)
        }),
    decreases qps.len(),
{
    let r = without_message(qps, key);
    if qps.len() > 0 {
        let rest = qps.skip(1);
        assert forall|i: int, j: int| 0 <= i < j < rest.len() implies (#[trigger] rest[i]).0 != (
        #[trigger] rest[j]).0 by {
            assert(qps[i + 1].0 != qps[j + 1].0);
        }
        if qps[0].0 == key {
            assert forall|i: int| 0 <= i < rest.len() implies (#[trigger] rest[i]).0 != key by {
                assert(qps[0].0 != qps[i + 1].0);
            }
            no_message(rest, key);
        } else {
            removed_message_is_gone(rest, key, other);
            assert(r.skip(1) =~= without_message(rest, key));
        }
    }
}

/// A key that stands nowhere has no message.
proof fn no_message(qps: Seq<(Seq<char>, Seq<char>)>, key: Seq<char>)
    requires
        forall|i: int| 0 <= i < qps.len() ==> (#[trigger] qps[i]).0 != key,
    ensures
        message_of(qps, key) is None,
    decreases qps.len(),
{
    if qps.len() > 0 {
        let rest = qps.skip(1);
        assert forall|i: int| 0 <= i < rest.len() implies (#[trigger] rest[i]).0 != key by {
            assert(qps[i + 1].0 != key);
        }
        no_message(rest, key);
    }
}

/// Setting the message where the key first stands.
proof fn with_message_at(
    qps: Seq<(Seq<char>, Seq<char>)>,
    key: Seq<char>,
    message: Seq<char>,
    i: int,
)
    requires
        0 <= i <= qps.len(),
        forall|k: int| 0 <= k < i ==> (#[trigger] qps[k]).0 != key,
        i < qps.len() ==> qps[i].0 == key,
    ensures
        with_message(qps, key, message) == (if i < qps.len() {
            qps.update(i, (key, message))
        } else {
            qps.push((key, message))
        }),
        (message_of(qps, key) is Some) == (i < qps.len()),
        without_message(qps, key) == (if i < qps.len() {
            qps.remove(i)
        } else {
            qps
        }),
    decreases qps.len(),
{
    let target = if i < qps.len() {
        qps.update(i, (key, message))
    } else {
        qps.push((key, message))
    };
    if qps.len() == 0 {
        assert(with_message(qps, key, message) =~= target);
    } else if i == 0 {
        assert(with_message(qps, key, message) =~= target);
        assert(without_message(qps, key) =~= qps.remove(0));
    } else {
        let rest = qps.skip(1);
        assert forall|k: int| 0 <= k < i - 1 implies (#[trigger] rest[k]).0 != key by {
            assert(qps[k + 1].0 != key);
        }
        assert(qps[0].0 != key);
        with_message_at(rest, key, message, i - 1);
        assert(with_message(qps, key, message) =~= target);
        assert(without_message(qps, key) =~= (if i < qps.len() {
            qps.remove(i)
        } else {
            qps
        }));
    }
}

/// The place where a key first stands, or the number of quick prompts.
fn place_of(qps: &Vec<(String, String)>, key: &str) -> (r: usize)
    ensures
        r <= qps.len(),
        forall|k: int| 0 <= k < r ==> (#[trigger] text::pairs_of(qps@)[k]).0 != key@,
        r < qps.len() ==> text::pairs_of(qps@)[r as int].0 == key@,
{
    let mut i: usize = 0;
    while i < qps.len()
        invariant
            i <= qps.len(),
            forall|k: int| 0 <= k < i ==> (#[trigger] text::pairs_of(qps@)[k]).0 != key@,
        decreases qps.len() - i,
    {
        if text::same(qps[i].0.as_str(), key) {
            return i;
        }
        i = i + 1;
    }
    i
}

/// Whether only the quick prompts of a configuration changed.
pub open spec fn only_prompts_changed(before: TomlConfig, after: TomlConfig) -> bool {
    after == (TomlConfig { quick_prompts: after.quick_prompts, ..before })
}

/// Add a quick prompt, in place of any other for the same key; what to print
/// once the configuration is saved.
pub fn qp_add(args: &[String], config: &mut TomlConfig) -> (r: Reply)
    ensures
        ({
            let a = text::texts(args@);
            if a.len() < 2 {
                says(r, 1, Seq::empty(), ADD_USAGE@) && *final(config) == *old(config)
            } else if key_named(a[0]) is None {
                says(
                    r,
                    1,
                    Seq::empty(),
                    "Invalid key: "@ + a[0] + "\n"@ + VALID_KEYS@,
                ) && *final(config) == *old(config)
            } else {
                let message = text::joined(a.skip(1), " "@);
                &&& says(
                    r,
                    0,
                    "Added quick prompt: "@ + a[0] + " = \""@ + message + "\"\n"@,
                    Seq::empty(),
                )
                &&& only_prompts_changed(*old(config), *final(config))
                &&& text::pairs_of(quick_prompts(*final(config))) == with_message(
                    text::pairs_of(quick_prompts(*old(config))),
                    a[0],
                    message,
                )
            }
        }),
{
    if args.len() < 2 {
        return Reply::failure(text::owned(ADD_USAGE));
    }
    let key: &str = args[0].as_str();
    proof {
        assert(text::texts(args@)[0] == key@);
    }
    if parse_key(key).is_none() {
        return Reply::failure(text::cat4("Invalid key: ", key, "\n", VALID_KEYS));
    }
    let words: Vec<String> = text::owned_from(args, 1);
    let message: String = text::join(&words, " ");
    let out: String = text::cat5("Added quick prompt: ", key, " = \"", message.as_str(), "\"\n");
    let mut qps: Vec<(String, String)> = match config.quick_prompts.take() {
        Some(q) => q,
        None => Vec::new(),
    };
    let ghost before = text::pairs_of(qps@);
    let i: usize = place_of(&qps, key);
    proof {
        with_message_at(before, key@, message@, i as int);
    }
    let entry: (String, String) = (text::owned(key), message);
    if i < qps.len() {
        qps.set(i, entry);
        proof {
            assert(text::pairs_of(qps@) =~= before.update(i as int, (key@, message@)));
        }
    } else {
        qps.push(entry);
        proof {
            assert(text::pairs_of(qps@) =~= before.push((key@, message@)));
        }
    }
    config.quick_prompts = Some(qps);
    Reply::success(out)
}

/// Remove a quick prompt; what to print once the configuration is saved.
pub fn qp_remove(args: &[String], config: &mut TomlConfig) -> (r: Reply)
    ensures
        ({
            let a = text::texts(args@);
            let before = text::pairs_of(quick_prompts(*old(config)));
            if a.len() == 0 {
                says(r, 1, Seq::empty(), REMOVE_USAGE@) && *final(config) == *old(config)
            } else if message_of(before, a[0]) is None {
                says(r, 1, Seq::empty(), "Quick prompt '"@ + a[0] + "' not found.\n"@) && *final(
                    config) == *old(config)
            } else {
                &&& says(r, 0, "Removed quick prompt: "@ + a[0] + "\n"@, Seq::empty())
                &&& only_prompts_changed(*old(config), *final(config))
                &&& text::pairs_of(quick_prompts(*final(config))) == without_message(before, a[0])
            }
        }),
{
    if args.len() == 0 {
        return Reply::failure(text::owned(REMOVE_USAGE));
    }
    let key: &str = args[0].as_str();
    proof {
        assert(text::texts(args@)[0] == key@);
    }
    match config.quick_prompts.take() {
        None => {
            proof {
                assert(text::pairs_of(Seq::<(String, String)>::empty()) =~= Seq::<
                    (Seq<char>, Seq<char>),
                >::empty());
            }
            Reply::failure(text::cat3("Quick prompt '", key, "' not found.\n"))
        },
        Some(q) => {
            let mut qps: Vec<(String, String)> = q;
            let ghost before = text::pairs_of(qps@);
            let i: usize = place_of(&qps, key);
            proof {
                with_message_at(before, key@, Seq::empty(), i as int);
            }
            if i >= qps.len() {
                config.quick_prompts = Some(qps);
                return Reply::failure(text::cat3("Quick prompt '", key, "' not found.\n"));
            }
            qps.remove(i);
            proof {
                assert(text::pairs_of(qps@) =~= before.remove(i as int));
            }
            config.quick_prompts = Some(qps);
            Reply::success(text::cat3("Removed quick prompt: ", key, "\n"))
        },
    }
}

} // verus!
