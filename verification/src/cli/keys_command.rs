//! `keys`: list and change the keys of the terminal interface.

use vstd::prelude::*;
use vstd::string::*;

use super::keys::{
    action_names, config_with, config_without, refused, reset_toml_action, set_toml_action,
    unknown_mode,
};
use super::reply::{says, Reply};
use crate::actions::{
    filter_actions, insert_actions, interact_actions, invert_filter, invert_insert,
    invert_interact, invert_normal, invert_view, inverted_all, normal_actions, view_actions, Keymap,
};
use crate::keymap::{key_named, parse_key, TomlConfig};
use crate::text;

verus! {

/// The usage text.
pub const KEYS_USAGE: &'static str = "Usage: clhorde-cli keys <list|set|reset>\n  list [mode]                     List keybindings\n  set <mode> <action> <key1...>   Set keybinding\n  reset <mode> [action]           Reset to defaults\n";

/// The usage text of `keys set`.
pub const SET_USAGE: &'static str = "Usage: clhorde-cli keys set <mode> <action> <key1> [key2...]\n";

/// The usage text of `keys reset`.
pub const RESET_USAGE: &'static str = "Usage: clhorde-cli keys reset <mode> [action]\n";

/// A command on the keys, with the arguments that are left for it.
#[derive(Debug, PartialEq)]
pub enum KeysCommand {
    List { mode: Option<String> },
    Assign { args: Vec<String> },
    Reset { args: Vec<String> },
}

/// Whether `r` is what the arguments come to.
pub open spec fn keys_asked(a: Seq<Seq<char>>, r: Result<KeysCommand, Reply>) -> bool {
    if a.len() > 0 && a[0] == "list"@ {
        r matches Ok(KeysCommand::List { mode }) && text::text_option(mode) == (
        if a.len() > 1 {
            Some(a[1])
        } else {
            None
        })
    } else if a.len() > 0 && a[0] == "set"@ {
        r matches Ok(KeysCommand::Assign { args: rest }) && text::texts(rest@) == a.skip(1)
    } else if a.len() > 0 && a[0] == "reset"@ {
        r matches Ok(KeysCommand::Reset { args: rest }) && text::texts(rest@) == a.skip(1)
    } else {
        r matches Err(x) && says(x, 1, Seq::empty(), KEYS_USAGE@)
    }
}

/// The command that the arguments of `keys` ask for.
pub fn cmd_keys(args: &[String]) -> (r: Result<KeysCommand, Reply>)
    ensures
        keys_asked(text::texts(args@), r),
{
    if args.len() == 0 {
        return Err(Reply::failure(text::owned(KEYS_USAGE)));
    }
    let name: &str = args[0].as_str();
    proof {
        assert(text::texts(args@)[0] == name@);
        if args@.len() > 1 {
            assert(text::texts(args@)[1] == args@[1]@);
        }
    }
    if text::same(name, "list") {
        let mode: Option<String> = if args.len() > 1 {
            Some(args[1].clone())
        } else {
            None
        };
        Ok(KeysCommand::List { mode })
    } else if text::same(name, "set") {
        Ok(KeysCommand::Assign { args: text::owned_from(args, 1) })
    } else if text::same(name, "reset") {
        Ok(KeysCommand::Reset { args: text::owned_from(args, 1) })
    } else {
        Err(Reply::failure(text::owned(KEYS_USAGE)))
    }
}

// ---------------------------------------------------------------------
// Listing
// ---------------------------------------------------------------------

/// A list of keys, each in quotes.
pub open spec fn key_list(keys: Seq<Seq<char>>) -> Seq<char> {
    "["@ + text::joined(keys.map_values(|k: Seq<char>| "\""@ + k + "\""@), ", "@) + "]"@
}

/// A list of keys, each in quotes.
pub fn format_key_list(keys: &Vec<String>) -> (r: String)
    ensures
        r@ == key_list(text::texts(keys@)),
{
    let ghost all = text::texts(keys@).map_values(|k: Seq<char>| "\""@ + k + "\""@);
    let mut shown: Vec<String> = Vec::new();
    let mut i: usize = 0;
    while i < keys.len()
        invariant
            i <= keys.len(),
            all == text::texts(keys@).map_values(|k: Seq<char>| "\""@ + k + "\""@),
            text::texts(shown@) == all.take(i as int),
        decreases keys.len() - i,
    {
        let ghost s = shown@;
        shown.push(text::cat3("\"", keys[i].as_str(), "\""));
        proof {
            assert(text::texts(shown@) =~= text::texts(s).push(shown@.last()@));
            assert(all.take(i + 1) =~= all.take(i as int).push(all[i as int]));
        }
        i = i + 1;
    }
    proof {
        assert(all.take(all.len() as int) =~= all);
    }
    let list: String = text::join(&shown, ", ");
    text::cat3("[", list.as_str(), "]")
}

/// The lines for some actions and their keys.
pub open spec fn binding_lines(bindings: Seq<(String, Vec<String>)>) -> Seq<char>
    decreases bindings.len(),
{
    if bindings.len() == 0 {
        Seq::empty()
    } else {
        let (action, keys) = bindings.last();
        binding_lines(bindings.drop_last()) + (action@ + " = "@ + key_list(text::texts(keys@))
            + "\n"@)
    }
}

/// The keys of a mode.
pub open spec fn mode_section(mode: Seq<char>, bindings: Seq<(String, Vec<String>)>) -> Seq<char> {
    "["@ + mode + "]\n"@ + binding_lines(bindings)
}

/// The keys of a mode.
pub fn print_mode_bindings(mode: &str, bindings: &Vec<(String, Vec<String>)>) -> (r: String)
    ensures
        r@ == mode_section(mode@, bindings@),
{
    let mut out: String = text::cat3("[", mode, "]\n");
    let ghost head = out@;
    let mut i: usize = 0;
    proof {
        assert(out@ =~= head + binding_lines(bindings@.take(0)));
    }
    while i < bindings.len()
        invariant
            i <= bindings.len(),
            head == "["@ + mode@ + "]\n"@,
            out@ == head + binding_lines(bindings@.take(i as int)),
        decreases bindings.len() - i,
    {
        let (action, keys) = &bindings[i];
        proof {
            assert(bindings@.take(i + 1).drop_last() =~= bindings@.take(i as int));
        }
        let shown: String = format_key_list(keys);
        let line: String = text::cat4(action.as_str(), " = ", shown.as_str(), "\n");
        out.append(line.as_str());
        proof {
            assert(out@ =~= head + binding_lines(bindings@.take(i + 1)));
        }
        i = i + 1;
    }
    proof {
        assert(bindings@.take(bindings@.len() as int) =~= bindings@);
    }
    out
}

/// Whether `out` lists the keys of the mode `mode`.
pub open spec fn lists_mode(out: Seq<char>, km: Keymap, mode: Seq<char>) -> bool {
    exists|bs: Seq<(String, Vec<String>)>|
        out == #[trigger] mode_section(mode, bs) && (if mode == "normal"@ {
            inverted_all(bs, km.normal@, normal_actions())
        } else if mode == "insert"@ {
            inverted_all(bs, km.insert@, insert_actions())
        } else if mode == "view"@ {
            inverted_all(bs, km.view@, view_actions())
        } else if mode == "interact"@ {
            inverted_all(bs, km.interact@, interact_actions())
        } else {
            mode == "filter"@ && inverted_all(bs, km.filter@, filter_actions())
        })
}

/// A name of a mode.
pub open spec fn is_mode(mode: Seq<char>) -> bool {
    mode == "normal"@ || mode == "insert"@ || mode == "view"@ || mode == "interact"@ || mode
        == "filter"@
}

/// The keys of one mode.
fn list_mode(km: &Keymap, mode: &str) -> (r: Option<String>)
    ensures
        match r {
            Some(out) => is_mode(mode@) && lists_mode(out@, *km, mode@),
            None => !is_mode(mode@),
        },
{
    let bs: Vec<(String, Vec<String>)> = if text::same(mode, "normal") {
        invert_normal(km)
    } else if text::same(mode, "insert") {
        invert_insert(km)
    } else if text::same(mode, "view") {
        invert_view(km)
    } else if text::same(mode, "interact") {
        invert_interact(km)
    } else if text::same(mode, "filter") {
        invert_filter(km)
    } else {
        return None;
    };
    let out: String = print_mode_bindings(mode, &bs);
    proof {
        assert(out@ == mode_section(mode@, bs@));
    }
    Some(out)
}

/// Whether `out` lists the keys of all modes, with a blank line between two.
pub open spec fn lists_all(out: Seq<char>, km: Keymap) -> bool {
    exists|a: Seq<char>, b: Seq<char>, c: Seq<char>, d: Seq<char>, e: Seq<char>|
        out == a + "\n"@ + b + "\n"@ + c + "\n"@ + d + "\n"@ + e && #[trigger] lists_mode(
            a,
            km,
            "normal"@,
        ) && #[trigger] lists_mode(b, km, "insert"@) && #[trigger] lists_mode(c, km, "view"@)
            && #[trigger] lists_mode(d, km, "interact"@) && #[trigger] lists_mode(
            e,
            km,
            "filter"@,
        )
}

/// The keys of all modes.
fn list_all(km: &Keymap) -> (r: String)
    ensures
        lists_all(r@, *km),
{
    let modes: Vec<&str> = vec!["normal", "insert", "view", "interact", "filter"];
    let a: Option<String> = list_mode(km, modes[0]);
    let b: Option<String> = list_mode(km, modes[1]);
    let c: Option<String> = list_mode(km, modes[2]);
    let d: Option<String> = list_mode(km, modes[3]);
    let e: Option<String> = list_mode(km, modes[4]);
    match (a, b, c, d, e) {
        (Some(a), Some(b), Some(c), Some(d), Some(e)) => {
            let mut out: String = text::cat6(
                a.as_str(),
                "\n",
                b.as_str(),
                "\n",
                c.as_str(),
                "\n",
            );
            out.append(d.as_str());
            out.append("\n");
            out.append(e.as_str());
            proof {
                assert(lists_mode(a@, *km, "normal"@) && lists_mode(b@, *km, "insert"@)
                    && lists_mode(c@, *km, "view"@) && lists_mode(d@, *km, "interact"@)
                    && lists_mode(e@, *km, "filter"@));
            }
            out
        },
        _ => {
            proof {
                assert(false);
            }
            String::new()
        },
    }
}

/// List the keys of a mode, or of all modes.
pub fn keys_list(mode: Option<&str>, km: &Keymap) -> (r: Reply)
    ensures
        match mode {
            Some(m) => if is_mode(m@) {
                exists|out: Seq<char>| #[trigger]
                    lists_mode(out, *km, m@) && says(r, 0, out, Seq::empty())
            } else {
                says(r, 1, Seq::empty(), unknown_mode(m@) + "\n"@)
            },
            None => exists|out: Seq<char>| #[trigger]
                lists_all(out, *km) && says(r, 0, out, Seq::empty()),
        },
{
    match mode {
        Some(m) => match list_mode(km, m) {
            Some(out) => Reply::success(out),
            None => Reply::failure(
                text::cat4(
                    "Unknown mode: ",
                    m,
                    "\nValid modes: normal, insert, view, interact, filter",
                    "\n",
                ),
            ),
        },
        None => Reply::success(list_all(km)),
    }
}

// ---------------------------------------------------------------------
// Changing
// ---------------------------------------------------------------------

/// The first word that names no key.
pub open spec fn first_invalid(keys: Seq<Seq<char>>) -> Option<Seq<char>>
    decreases keys.len(),
{
    if keys.len() == 0 {
        None
    } else if key_named(keys[0]) is None {
        Some(keys[0])
    } else {
        first_invalid(keys.skip(1))
    }
}

/// The place of the first word that names no key.
fn find_invalid(keys: &Vec<String>) -> (r: Option<usize>)
    ensures
        match r {
            Some(i) => i < keys.len() && first_invalid(text::texts(keys@)) == Some(
                keys@[i as int]@,
            ),
            None => first_invalid(text::texts(keys@)) is None,
        },
{
    let ghost all = text::texts(keys@);
    let mut i: usize = 0;
    proof {
        assert(all.skip(0) =~= all);
    }
    while i < keys.len()
        invariant
            i <= keys.len(),
            all == text::texts(keys@),
            first_invalid(all) == first_invalid(all.skip(i as int)),
        decreases keys.len() - i,
    {
        proof {
            assert(all.skip(i as int)[0] == keys@[i as int]@);
            assert(all.skip(i as int).skip(1) =~= all.skip(i + 1));
        }
        if parse_key(keys[i].as_str()).is_none() {
            return Some(i);
        }
        i = i + 1;
    }
    None
}

/// Whether `after` is `before` with the keys of an action set.
pub open spec fn keys_were_set(
    before: TomlConfig,
    after: TomlConfig,
    mode: Seq<char>,
    action: Seq<char>,
    keys: Seq<Seq<char>>,
) -> bool {
    exists|ks: Vec<String>|
        text::texts(ks@) == keys && after == #[trigger] config_with(before, mode, action, ks)
}

/// Set the keys of an action; what to print once the configuration is saved.
pub fn keys_set(args: &[String], config: &mut TomlConfig) -> (r: Reply)
    ensures
        ({
            let a = text::texts(args@);
            if a.len() < 3 {
                says(r, 1, Seq::empty(), SET_USAGE@) && *final(config) == *old(config)
            } else {
                match first_invalid(a.skip(2)) {
                    Some(k) => says(r, 1, Seq::empty(), "Invalid key: "@ + k + "\n"@) && *final(
                        config) == *old(config),
                    None => match refused(a[0], a[1]) {
                        Some(why) => says(r, 1, Seq::empty(), why + "\n"@) && *final(config)
                            == *old(config),
                        None => says(
                            r,
                            0,
                            "Set "@ + a[0] + "."@ + a[1] + " = "@ + key_list(a.skip(2)) + "\n"@,
                            Seq::empty(),
                        ) && keys_were_set(*old(config), *final(config), a[0], a[1], a.skip(2)),
                    },
                }
            }
        }),
{
    if args.len() < 3 {
        return Reply::failure(text::owned(SET_USAGE));
    }
    let mode: &str = args[0].as_str();
    let action: &str = args[1].as_str();
    let keys: Vec<String> = text::owned_from(args, 2);
    proof {
        assert(text::texts(args@)[0] == mode@);
        assert(text::texts(args@)[1] == action@);
    }
    if let Some(i) = find_invalid(&keys) {
        return Reply::failure(text::cat3("Invalid key: ", keys[i].as_str(), "\n"));
    }
    let shown: String = format_key_list(&keys);
    let ghost before = *config;
    match set_toml_action(config, mode, action, keys) {
        Err(e) => Reply::failure(text::cat2(e.as_str(), "\n")),
        Ok(()) => {
            proof {
                assert(*config == config_with(before, mode@, action@, keys));
            }
            let mut out: String = text::cat6("Set ", mode, ".", action, " = ", shown.as_str());
            out.append("\n");
            Reply::success(out)
        },
    }
}

/// Put an action, or a mode, back to its defaults; what to print once the
/// configuration is saved.
pub fn keys_reset(args: &[String], config: &mut TomlConfig) -> (r: Reply)
    ensures
        ({
            let a = text::texts(args@);
            if a.len() == 0 {
                says(r, 1, Seq::empty(), RESET_USAGE@) && *final(config) == *old(config)
            } else if a.len() == 1 {
                if action_names(a[0]) is None {
                    says(r, 1, Seq::empty(), unknown_mode(a[0]) + "\n"@) && *final(config) == *old(
                        config)
                } else {
                    says(
                        r,
                        0,
                        "Reset all "@ + a[0] + " bindings to defaults.\n"@,
                        Seq::empty(),
                    ) && *final(config) == config_without(*old(config), a[0], None)
                }
            } else {
                match refused(a[0], a[1]) {
                    Some(why) => says(r, 1, Seq::empty(), why + "\n"@) && *final(config) == *old(
                        config),
                    None => says(
                        r,
                        0,
                        "Reset "@ + a[0] + "."@ + a[1] + " to default.\n"@,
                        Seq::empty(),
                    ) && *final(config) == config_without(*old(config), a[0], Some(a[1])),
                }
            }
        }),
{
    if args.len() == 0 {
        return Reply::failure(text::owned(RESET_USAGE));
    }
    let mode: &str = args[0].as_str();
    let action: Option<&str> = if args.len() > 1 {
        Some(args[1].as_str())
    } else {
        None
    };
    proof {
        assert(text::texts(args@)[0] == mode@);
        if args@.len() > 1 {
            assert(text::texts(args@)[1] == args@[1]@);
        }
    }
    match reset_toml_action(config, mode, action) {
        Err(e) => Reply::failure(text::cat2(e.as_str(), "\n")),
        Ok(()) => match action {
            Some(a) => Reply::success(text::cat5("Reset ", mode, ".", a, " to default.\n")),
            None => Reply::success(text::cat3("Reset all ", mode, " bindings to defaults.\n")),
        },
    }
}

/// The failure to save the configuration.
pub fn save_failed(error: &str) -> (r: Reply)
    ensures
        says(r, 1, Seq::empty(), "Failed to save config: "@ + error@ + "\n"@),
{
    Reply::failure(text::cat3("Failed to save config: ", error, "\n"))
}

/// Keys are refused exactly where a word names none, and the complaint is about
/// the first such word.
pub proof fn first_word_that_names_no_key_is_refused(keys: Seq<Seq<char>>)
    ensures
        match first_invalid(keys) {
            Some(k) => exists|i: int|
                0 <= i < keys.len() && #[trigger] keys[i] == k && key_named(k) is None && forall|
                    j: int,
                |
                    0 <= j < i ==> key_named(#[trigger] keys[j]) is Some,
            None => forall|i: int| 0 <= i < keys.len() ==> key_named(#[trigger] keys[i]) is Some,
        },
    decreases keys.len(),
{
    if keys.len() > 0 && key_named(keys[0]) is Some {
        let rest = keys.skip(1);
        first_word_that_names_no_key_is_refused(rest);
        assert forall|i: int| 1 <= i < keys.len() implies keys[i] == #[trigger] rest[i - 1] by {}
        match first_invalid(rest) {
            Some(k) => {
                let i = choose|i: int|
                    0 <= i < rest.len() && #[trigger] rest[i] == k && key_named(k) is None
                        && forall|j: int| 0 <= j < i ==> key_named(#[trigger] rest[j]) is Some;
                assert(keys[i + 1] == k);
                assert forall|j: int| 0 <= j < i + 1 implies key_named(#[trigger] keys[j]) is Some by {
                    if j > 0 {
                        assert(key_named(rest[j - 1]) is Some);
                    }
                }
            },
            None => {
                assert forall|i: int| 0 <= i < keys.len() implies key_named(
                    #[trigger] keys[i],
                ) is Some by {
                    if i > 0 {
                        assert(key_named(rest[i - 1]) is Some);
                    }
                }
            },
        }
    }
}

} // verus!
