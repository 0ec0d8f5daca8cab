//! The `keys` command: list, set and reset key bindings.

use vstd::prelude::*;
use vstd::string::*;

use crate::keymap::{TomlConfig, TomlFilterBindings, TomlInsertBindings, TomlInteractBindings, TomlNormalBindings, TomlViewBindings, no_insert, no_normal, no_view};
use crate::text;

verus! {

/// The actions of a mode whose keys can be set, in the order in which they are
/// listed.
pub open spec fn action_names(mode: Seq<char>) -> Option<Seq<Seq<char>>> {
    if mode == "normal"@ {
        Some(
            seq![
                "quit"@,
                "insert"@,
                "select_next"@,
                "select_prev"@,
                "view_output"@,
                "interact"@,
                "increase_workers"@,
                "decrease_workers"@,
                "toggle_mode"@,
                "retry"@,
                "resume"@,
                "move_up"@,
                "move_down"@,
                "search"@,
                "half_page_down"@,
                "half_page_up"@,
                "go_to_top"@,
                "go_to_bottom"@,
            ],
        )
    } else if mode == "insert"@ {
        Some(
            seq![
                "cancel"@,
                "submit"@,
                "accept_suggestion"@,
                "next_suggestion"@,
                "prev_suggestion"@,
            ],
        )
    } else if mode == "view"@ {
        Some(
            seq![
                "back"@,
                "scroll_down"@,
                "scroll_up"@,
                "interact"@,
                "toggle_autoscroll"@,
                "kill_worker"@,
                "export"@,
            ],
        )
    } else if mode == "interact"@ {
        Some(seq!["back"@, "send"@])
    } else if mode == "filter"@ {
        Some(seq!["confirm"@, "cancel"@])
    } else {
        None
    }
}

/// The actions of a mode whose keys can be set.
pub fn action_names_for_mode(mode: &str) -> (r: Option<Vec<&'static str>>)
    ensures
        match action_names(mode@) {
            Some(names) => r matches Some(v) && text::slices(v@) == names,
            None => r is None,
        },
{
    if text::same(mode, "normal") {
        let v: Vec<&'static str> = vec![
            "quit",
            "insert",
            "select_next",
            "select_prev",
            "view_output",
            "interact",
            "increase_workers",
            "decrease_workers",
            "toggle_mode",
            "retry",
            "resume",
            "move_up",
            "move_down",
            "search",
            "half_page_down",
            "half_page_up",
            "go_to_top",
            "go_to_bottom",
        ];
        proof {
            assert(text::slices(v@) =~= action_names(mode@)->0);
        }
        Some(v)
    } else if text::same(mode, "insert") {
        let v: Vec<&'static str> = vec![
            "cancel",
            "submit",
            "accept_suggestion",
            "next_suggestion",
            "prev_suggestion",
        ];
        proof {
            assert(text::slices(v@) =~= action_names(mode@)->0);
        }
        Some(v)
    } else if text::same(mode, "view") {
        let v: Vec<&'static str> = vec![
            "back",
            "scroll_down",
            "scroll_up",
            "interact",
            "toggle_autoscroll",
            "kill_worker",
            "export",
        ];
        proof {
            assert(text::slices(v@) =~= action_names(mode@)->0);
        }
        Some(v)
    } else if text::same(mode, "interact") {
        let v: Vec<&'static str> = vec!["back", "send"];
        proof {
            assert(text::slices(v@) =~= action_names(mode@)->0);
        }
        Some(v)
    } else if text::same(mode, "filter") {
        let v: Vec<&'static str> = vec!["confirm", "cancel"];
        proof {
            assert(text::slices(v@) =~= action_names(mode@)->0);
        }
        Some(v)
    } else {
        None
    }
}

/// A `[normal]` block with the keys of one action set.
pub open spec fn normal_with(
    b: TomlNormalBindings,
    action: Seq<char>,
    keys: Option<Vec<String>>,
) -> TomlNormalBindings {
    if action == "quit"@ {
        TomlNormalBindings { quit: keys, ..b }
    } else if action == "insert"@ {
        TomlNormalBindings { insert: keys, ..b }
    } else if action == "select_next"@ {
        TomlNormalBindings { select_next: keys, ..b }
    } else if action == "select_prev"@ {
        TomlNormalBindings { select_prev: keys, ..b }
    } else if action == "view_output"@ {
        TomlNormalBindings { view_output: keys, ..b }
    } else if action == "interact"@ {
        TomlNormalBindings { interact: keys, ..b }
    } else if action == "increase_workers"@ {
        TomlNormalBindings { increase_workers: keys, ..b }
    } else if action == "decrease_workers"@ {
        TomlNormalBindings { decrease_workers: keys, ..b }
    } else if action == "toggle_mode"@ {
        TomlNormalBindings { toggle_mode: keys, ..b }
    } else if action == "retry"@ {
        TomlNormalBindings { retry: keys, ..b }
    } else if action == "resume"@ {
        TomlNormalBindings { resume: keys, ..b }
    } else if action == "move_up"@ {
        TomlNormalBindings { move_up: keys, ..b }
    } else if action == "move_down"@ {
        TomlNormalBindings { move_down: keys, ..b }
    } else if action == "search"@ {
        TomlNormalBindings { search: keys, ..b }
    } else if action == "half_page_down"@ {
        TomlNormalBindings { half_page_down: keys, ..b }
    } else if action == "half_page_up"@ {
        TomlNormalBindings { half_page_up: keys, ..b }
    } else if action == "go_to_top"@ {
        TomlNormalBindings { go_to_top: keys, ..b }
    } else if action == "go_to_bottom"@ {
        TomlNormalBindings { go_to_bottom: keys, ..b }
    } else {
        b
    }
}

/// The keys of one action of a `[normal]` block.
pub open spec fn normal_keys(b: TomlNormalBindings, action: Seq<char>) -> Option<Vec<String>> {
    if action == "quit"@ {
        b.quit
    } else if action == "insert"@ {
        b.insert
    } else if action == "select_next"@ {
        b.select_next
    } else if action == "select_prev"@ {
        b.select_prev
    } else if action == "view_output"@ {
        b.view_output
    } else if action == "interact"@ {
        b.interact
    } else if action == "increase_workers"@ {
        b.increase_workers
    } else if action == "decrease_workers"@ {
        b.decrease_workers
    } else if action == "toggle_mode"@ {
        b.toggle_mode
    } else if action == "retry"@ {
        b.retry
    } else if action == "resume"@ {
        b.resume
    } else if action == "move_up"@ {
        b.move_up
    } else if action == "move_down"@ {
        b.move_down
    } else if action == "search"@ {
        b.search
    } else if action == "half_page_down"@ {
        b.half_page_down
    } else if action == "half_page_up"@ {
        b.half_page_up
    } else if action == "go_to_top"@ {
        b.go_to_top
    } else if action == "go_to_bottom"@ {
        b.go_to_bottom
    } else {
        None
    }
}

/// Set the keys of one action of a `[normal]` block.
fn set_normal(b: &mut TomlNormalBindings, action: &str, keys: Option<Vec<String>>)
    ensures
        *final(b) == normal_with(*old(b), action@, keys),
{
    if text::same(action, "quit") {
        b.quit = keys;
    } else if text::same(action, "insert") {
        b.insert = keys;
    } else if text::same(action, "select_next") {
        b.select_next = keys;
    } else if text::same(action, "select_prev") {
        b.select_prev = keys;
    } else if text::same(action, "view_output") {
        b.view_output = keys;
    } else if text::same(action, "interact") {
        b.interact = keys;
    } else if text::same(action, "increase_workers") {
        b.increase_workers = keys;
    } else if text::same(action, "decrease_workers") {
        b.decrease_workers = keys;
    } else if text::same(action, "toggle_mode") {
        b.toggle_mode = keys;
    } else if text::same(action, "retry") {
        b.retry = keys;
    } else if text::same(action, "resume") {
        b.resume = keys;
    } else if text::same(action, "move_up") {
        b.move_up = keys;
    } else if text::same(action, "move_down") {
        b.move_down = keys;
    } else if text::same(action, "search") {
        b.search = keys;
    } else if text::same(action, "half_page_down") {
        b.half_page_down = keys;
    } else if text::same(action, "half_page_up") {
        b.half_page_up = keys;
    } else if text::same(action, "go_to_top") {
        b.go_to_top = keys;
    } else if text::same(action, "go_to_bottom") {
        b.go_to_bottom = keys;
    }
}

/// A `[insert]` block with the keys of one action set.
pub open spec fn insert_with(
    b: TomlInsertBindings,
    action: Seq<char>,
    keys: Option<Vec<String>>,
) -> TomlInsertBindings {
    if action == "cancel"@ {
        TomlInsertBindings { cancel: keys, ..b }
    } else if action == "submit"@ {
        TomlInsertBindings { submit: keys, ..b }
    } else if action == "accept_suggestion"@ {
        TomlInsertBindings { accept_suggestion: keys, ..b }
    } else if action == "next_suggestion"@ {
        TomlInsertBindings { next_suggestion: keys, ..b }
    } else if action == "prev_suggestion"@ {
        TomlInsertBindings { prev_suggestion: keys, ..b }
    } else {
        b
    }
}

/// The keys of one action of a `[insert]` block.
pub open spec fn insert_keys(b: TomlInsertBindings, action: Seq<char>) -> Option<Vec<String>> {
    if action == "cancel"@ {
        b.cancel
    } else if action == "submit"@ {
        b.submit
    } else if action == "accept_suggestion"@ {
        b.accept_suggestion
    } else if action == "next_suggestion"@ {
        b.next_suggestion
    } else if action == "prev_suggestion"@ {
        b.prev_suggestion
    } else {
        None
    }
}

/// Set the keys of one action of a `[insert]` block.
fn set_insert(b: &mut TomlInsertBindings, action: &str, keys: Option<Vec<String>>)
    ensures
        *final(b) == insert_with(*old(b), action@, keys),
{
    if text::same(action, "cancel") {
        b.cancel = keys;
    } else if text::same(action, "submit") {
        b.submit = keys;
    } else if text::same(action, "accept_suggestion") {
        b.accept_suggestion = keys;
    } else if text::same(action, "next_suggestion") {
        b.next_suggestion = keys;
    } else if text::same(action, "prev_suggestion") {
        b.prev_suggestion = keys;
    }
}

/// A `[view]` block with the keys of one action set.
pub open spec fn view_with(
    b: TomlViewBindings,
    action: Seq<char>,
    keys: Option<Vec<String>>,
) -> TomlViewBindings {
    if action == "back"@ {
        TomlViewBindings { back: keys, ..b }
    } else if action == "scroll_down"@ {
        TomlViewBindings { scroll_down: keys, ..b }
    } else if action == "scroll_up"@ {
        TomlViewBindings { scroll_up: keys, ..b }
    } else if action == "interact"@ {
        TomlViewBindings { interact: keys, ..b }
    } else if action == "toggle_autoscroll"@ {
        TomlViewBindings { toggle_autoscroll: keys, ..b }
    } else if action == "kill_worker"@ {
        TomlViewBindings { kill_worker: keys, ..b }
    } else if action == "export"@ {
        TomlViewBindings { export: keys, ..b }
    } else {
        b
    }
}

/// The keys of one action of a `[view]` block.
pub open spec fn view_keys(b: TomlViewBindings, action: Seq<char>) -> Option<Vec<String>> {
    if action == "back"@ {
        b.back
    } else if action == "scroll_down"@ {
        b.scroll_down
    } else if action == "scroll_up"@ {
        b.scroll_up
    } else if action == "interact"@ {
        b.interact
    } else if action == "toggle_autoscroll"@ {
        b.toggle_autoscroll
    } else if action == "kill_worker"@ {
        b.kill_worker
    } else if action == "export"@ {
        b.export
    } else {
        None
    }
}

/// Set the keys of one action of a `[view]` block.
fn set_view(b: &mut TomlViewBindings, action: &str, keys: Option<Vec<String>>)
    ensures
        *final(b) == view_with(*old(b), action@, keys),
{
    if text::same(action, "back") {
        b.back = keys;
    } else if text::same(action, "scroll_down") {
        b.scroll_down = keys;
    } else if text::same(action, "scroll_up") {
        b.scroll_up = keys;
    } else if text::same(action, "interact") {
        b.interact = keys;
    } else if text::same(action, "toggle_autoscroll") {
        b.toggle_autoscroll = keys;
    } else if text::same(action, "kill_worker") {
        b.kill_worker = keys;
    } else if text::same(action, "export") {
        b.export = keys;
    }
}

/// A `[interact]` block with the keys of one action set.
pub open spec fn interact_with(
    b: TomlInteractBindings,
    action: Seq<char>,
    keys: Option<Vec<String>>,
) -> TomlInteractBindings {
    if action == "back"@ {
        TomlInteractBindings { back: keys, ..b }
    } else if action == "send"@ {
        TomlInteractBindings { send: keys, ..b }
    } else {
        b
    }
}

/// The keys of one action of a `[interact]` block.
pub open spec fn interact_keys(b: TomlInteractBindings, action: Seq<char>) -> Option<Vec<String>> {
    if action == "back"@ {
        b.back
    } else if action == "send"@ {
        b.send
    } else {
        None
    }
}

/// Set the keys of one action of a `[interact]` block.
fn set_interact(b: &mut TomlInteractBindings, action: &str, keys: Option<Vec<String>>)
    ensures
        *final(b) == interact_with(*old(b), action@, keys),
{
    if text::same(action, "back") {
        b.back = keys;
    } else if text::same(action, "send") {
        b.send = keys;
    }
}

/// A `[filter]` block with the keys of one action set.
pub open spec fn filter_with(
    b: TomlFilterBindings,
    action: Seq<char>,
    keys: Option<Vec<String>>,
) -> TomlFilterBindings {
    if action == "confirm"@ {
        TomlFilterBindings { confirm: keys, ..b }
    } else if action == "cancel"@ {
        TomlFilterBindings { cancel: keys, ..b }
    } else {
        b
    }
}

/// The keys of one action of a `[filter]` block.
pub open spec fn filter_keys(b: TomlFilterBindings, action: Seq<char>) -> Option<Vec<String>> {
    if action == "confirm"@ {
        b.confirm
    } else if action == "cancel"@ {
        b.cancel
    } else {
        None
    }
}

/// Set the keys of one action of a `[filter]` block.
fn set_filter(b: &mut TomlFilterBindings, action: &str, keys: Option<Vec<String>>)
    ensures
        *final(b) == filter_with(*old(b), action@, keys),
{
    if text::same(action, "confirm") {
        b.confirm = keys;
    } else if text::same(action, "cancel") {
        b.cancel = keys;
    }
}

/// The complaint about a mode that there is none of.
pub open spec fn unknown_mode(mode: Seq<char>) -> Seq<char> {
    "Unknown mode: "@ + mode + "\nValid modes: normal, insert, view, interact, filter"@
}

/// The complaint about an action that a mode has none of.
pub open spec fn unknown_action(
    mode: Seq<char>,
    action: Seq<char>,
    names: Seq<Seq<char>>,
) -> Seq<char> {
    "Unknown action '"@ + action + "' for mode '"@ + mode + "'.\nValid actions: "@ + text::joined(
        names,
        ", "@,
    )
}

/// Why the keys of an action cannot be set or reset, if they cannot.
pub open spec fn refused(mode: Seq<char>, action: Seq<char>) -> Option<Seq<char>> {
    match action_names(mode) {
        None => Some(unknown_mode(mode)),
        Some(names) => if names.contains(action) {
            None
        } else {
            Some(unknown_action(mode, action, names))
        },
    }
}

/// The configuration with the keys of one action set.
pub open spec fn config_with(
    config: TomlConfig,
    mode: Seq<char>,
    action: Seq<char>,
    keys: Vec<String>,
) -> TomlConfig {
    if mode == "normal"@ {
        let b = match config.normal {
            Some(b) => b,
            None => no_normal(),
        };
        TomlConfig { normal: Some(normal_with(b, action, Some(keys))), ..config }
    } else if mode == "insert"@ {
        let b = match config.insert {
            Some(b) => b,
            None => no_insert(),
        };
        TomlConfig { insert: Some(insert_with(b, action, Some(keys))), ..config }
    } else if mode == "view"@ {
        let b = match config.view {
            Some(b) => b,
            None => no_view(),
        };
        TomlConfig { view: Some(view_with(b, action, Some(keys))), ..config }
    } else if mode == "interact"@ {
        let b = match config.interact {
            Some(b) => b,
            None => TomlInteractBindings { back: None, send: None },
        };
        TomlConfig { interact: Some(interact_with(b, action, Some(keys))), ..config }
    } else if mode == "filter"@ {
        let b = match config.filter {
            Some(b) => b,
            None => TomlFilterBindings { confirm: None, cancel: None },
        };
        TomlConfig { filter: Some(filter_with(b, action, Some(keys))), ..config }
    } else {
        config
    }
}

/// The configuration with one action, or a whole mode, back at its defaults.
pub open spec fn config_without(
    config: TomlConfig,
    mode: Seq<char>,
    action: Option<Seq<char>>,
) -> TomlConfig {
    if mode == "normal"@ {
        match (config.normal, action) {
            (Some(b), Some(a)) => TomlConfig { normal: Some(normal_with(b, a, None)), ..config },
            _ => TomlConfig { normal: None, ..config },
        }
    } else if mode == "insert"@ {
        match (config.insert, action) {
            (Some(b), Some(a)) => TomlConfig { insert: Some(insert_with(b, a, None)), ..config },
            _ => TomlConfig { insert: None, ..config },
        }
    } else if mode == "view"@ {
        match (config.view, action) {
            (Some(b), Some(a)) => TomlConfig { view: Some(view_with(b, a, None)), ..config },
            _ => TomlConfig { view: None, ..config },
        }
    } else if mode == "interact"@ {
        match (config.interact, action) {
            (Some(b), Some(a)) => TomlConfig { interact: Some(interact_with(b, a, None)), ..config },
            _ => TomlConfig { interact: None, ..config },
        }
    } else if mode == "filter"@ {
        match (config.filter, action) {
            (Some(b), Some(a)) => TomlConfig { filter: Some(filter_with(b, a, None)), ..config },
            _ => TomlConfig { filter: None, ..config },
        }
    } else {
        config
    }
}

/// The keys that a configuration binds to an action.
pub open spec fn config_keys(
    config: TomlConfig,
    mode: Seq<char>,
    action: Seq<char>,
) -> Option<Vec<String>> {
    if mode == "normal"@ {
        match config.normal {
            Some(b) => normal_keys(b, action),
            None => None,
        }
    } else if mode == "insert"@ {
        match config.insert {
            Some(b) => insert_keys(b, action),
            None => None,
        }
    } else if mode == "view"@ {
        match config.view {
            Some(b) => view_keys(b, action),
            None => None,
        }
    } else if mode == "interact"@ {
        match config.interact {
            Some(b) => interact_keys(b, action),
            None => None,
        }
    } else if mode == "filter"@ {
        match config.filter {
            Some(b) => filter_keys(b, action),
            None => None,
        }
    } else {
        None
    }
}

/// The complaint about a mode that there is none of.
fn unknown_mode_text(mode: &str) -> (r: String)
    ensures
        r@ == unknown_mode(mode@),
{
    let mut out: String = text::owned("Unknown mode: ");
    out.append(mode);
    out.append("\nValid modes: normal, insert, view, interact, filter");
    out
}

/// Whether a mode has an action; the complaint where it has not.
fn check_action(mode: &str, action: &str) -> (r: Result<(), String>)
    ensures
        match refused(mode@, action@) {
            None => r is Ok,
            Some(why) => r matches Err(e) && e@ == why,
        },
{
    match action_names_for_mode(mode) {
        None => Err(unknown_mode_text(mode)),
        Some(valid) => {
            let mut names: Vec<String> = Vec::new();
            let mut i: usize = 0;
            while i < valid.len()
                invariant
                    i <= valid.len(),
                    names@.len() == i,
                    forall|k: int| 0 <= k < i ==> (#[trigger] names@[k])@ == valid@[k]@,
                decreases valid.len() - i,
            {
                names.push(text::owned(valid[i]));
                i = i + 1;
            }
            proof {
                assert(text::texts(names@) =~= text::slices(valid@));
            }
            if text::list_has(&names, action) {
                Ok(())
            } else {
                let mut out: String = text::owned("Unknown action '");
                out.append(action);
                out.append("' for mode '");
                out.append(mode);
                out.append("'.\nValid actions: ");
                out.append(text::join(&names, ", ").as_str());
                Err(out)
            }
        },
    }
}

/// Set the keys of an action in the configuration.
pub fn set_toml_action(
    config: &mut TomlConfig,
    mode: &str,
    action: &str,
    keys: Vec<String>,
) -> (r: Result<(), String>)
    ensures
        match refused(mode@, action@) {
            Some(why) => r matches Err(e) && e@ == why && *final(config) == *old(config),
            None => r is Ok && *final(config) == config_with(*old(config), mode@, action@, keys),
        },
{
    match check_action(mode, action) {
        Err(e) => {
            return Err(e);
        },
        Ok(()) => {},
    }
    if text::same(mode, "normal") {
        let mut b: TomlNormalBindings = match config.normal.take() {
            Some(b) => b,
            None => TomlNormalBindings::default(),
        };
        set_normal(&mut b, action, Some(keys));
        config.normal = Some(b);
    } else if text::same(mode, "insert") {
        let mut b: TomlInsertBindings = match config.insert.take() {
            Some(b) => b,
            None => TomlInsertBindings::default(),
        };
        set_insert(&mut b, action, Some(keys));
        config.insert = Some(b);
    } else if text::same(mode, "view") {
        let mut b: TomlViewBindings = match config.view.take() {
            Some(b) => b,
            None => TomlViewBindings::default(),
        };
        set_view(&mut b, action, Some(keys));
        config.view = Some(b);
    } else if text::same(mode, "interact") {
        let mut b: TomlInteractBindings = match config.interact.take() {
            Some(b) => b,
            None => TomlInteractBindings::default(),
        };
        set_interact(&mut b, action, Some(keys));
        config.interact = Some(b);
    } else if text::same(mode, "filter") {
        let mut b: TomlFilterBindings = match config.filter.take() {
            Some(b) => b,
            None => TomlFilterBindings::default(),
        };
        set_filter(&mut b, action, Some(keys));
        config.filter = Some(b);
    }
    Ok(())
}

/// Put an action, or a whole mode, of the configuration back to its defaults.
pub fn reset_toml_action(
    config: &mut TomlConfig,
    mode: &str,
    action: Option<&str>,
) -> (r: Result<(), String>)
    ensures
        match action {
            Some(a) => match refused(mode@, a@) {
                Some(why) => r matches Err(e) && e@ == why && *final(config) == *old(config),
                None => r is Ok && *final(config) == config_without(
                    *old(config),
                    mode@,
                    Some(a@),
                ),
            },
            None => match action_names(mode@) {
                None => r matches Err(e) && e@ == unknown_mode(mode@) && *final(config) == *old(
                    config),
                Some(_) => r is Ok && *final(config) == config_without(*old(config), mode@, None),
            },
        },
{
    match action {
        Some(a) => {
            match check_action(mode, a) {
                Err(e) => {
                    return Err(e);
                },
                Ok(()) => {},
            }
        },
        None => {
            if action_names_for_mode(mode).is_none() {
                return Err(unknown_mode_text(mode));
            }
        },
    }
    if text::same(mode, "normal") {
        match (config.normal.take(), action) {
            (Some(b), Some(a)) => {
                let mut b: TomlNormalBindings = b;
                set_normal(&mut b, a, None);
                config.normal = Some(b);
            },
            _ => {},
        }
    } else if text::same(mode, "insert") {
        match (config.insert.take(), action) {
            (Some(b), Some(a)) => {
                let mut b: TomlInsertBindings = b;
                set_insert(&mut b, a, None);
                config.insert = Some(b);
            },
            _ => {},
        }
    } else if text::same(mode, "view") {
        match (config.view.take(), action) {
            (Some(b), Some(a)) => {
                let mut b: TomlViewBindings = b;
                set_view(&mut b, a, None);
                config.view = Some(b);
            },
            _ => {},
        }
    } else if text::same(mode, "interact") {
        match (config.interact.take(), action) {
            (Some(b), Some(a)) => {
                let mut b: TomlInteractBindings = b;
                set_interact(&mut b, a, None);
                config.interact = Some(b);
            },
            _ => {},
        }
    } else if text::same(mode, "filter") {
        match (config.filter.take(), action) {
            (Some(b), Some(a)) => {
                let mut b: TomlFilterBindings = b;
                set_filter(&mut b, a, None);
                config.filter = Some(b);
            },
            _ => {},
        }
    }
    Ok(())
}

/// The keys that were set for an action are the keys that it is bound to, and
/// those of all other actions stay as they were.
pub proof fn set_action_is_read_back(
    config: TomlConfig,
    mode: Seq<char>,
    action: Seq<char>,
    keys: Vec<String>,
)
    requires
        refused(mode, action) is None,
    ensures
        config_keys(config_with(config, mode, action, keys), mode, action) == Some(keys),
        forall|m: Seq<char>, a: Seq<char>|
            (m != mode || a != action) ==> #[trigger] config_keys(
                config_with(config, mode, action, keys),
                m,
                a,
            ) == config_keys(config, m, a),
{
    let names = action_names(mode)->0;
    let i = names.index_of(action);
    assert(names[i] == action);
}

/// After an action is reset it is bound to nothing, and the keys of all other
/// actions stay as they were.
pub proof fn reset_action_unbinds(config: TomlConfig, mode: Seq<char>, action: Seq<char>)
    requires
        refused(mode, action) is None,
    ensures
        config_keys(config_without(config, mode, Some(action)), mode, action) is None,
        forall|m: Seq<char>, a: Seq<char>|
            (m != mode || a != action) ==> #[trigger] config_keys(
                config_without(config, mode, Some(action)),
                m,
                a,
            ) == config_keys(config, m, a),
{
}

/// After a mode is reset none of its actions is bound to anything, and the
/// keys of all other modes stay as they were.
pub proof fn reset_mode_unbinds(config: TomlConfig, mode: Seq<char>)
    ensures
        forall|a: Seq<char>| (#[trigger] config_keys(config_without(config, mode, None), mode, a)) is None,
        forall|m: Seq<char>, a: Seq<char>|
            m != mode ==> #[trigger] config_keys(config_without(config, mode, None), m, a)
                == config_keys(config, m, a),
{
}

/// Setting or resetting keys touches the block of the mode and nothing else of
/// the configuration.
pub proof fn only_the_mode_is_touched(
    config: TomlConfig,
    mode: Seq<char>,
    action: Seq<char>,
    reset: Option<Seq<char>>,
    keys: Vec<String>,
)
    ensures
        ({
            let a = config_with(config, mode, action, keys);
            let b = config_without(config, mode, reset);
            &&& a.settings == config.settings && b.settings == config.settings
            &&& a.quick_prompts == config.quick_prompts && b.quick_prompts == config.quick_prompts
            &&& a.sources == config.sources && b.sources == config.sources
            &&& mode != "normal"@ ==> a.normal == config.normal && b.normal == config.normal
            &&& mode != "insert"@ ==> a.insert == config.insert && b.insert == config.insert
            &&& mode != "view"@ ==> a.view == config.view && b.view == config.view
            &&& mode != "interact"@ ==> a.interact == config.interact && b.interact
                == config.interact
            &&& mode != "filter"@ ==> a.filter == config.filter && b.filter == config.filter
        }),
{
}

/// Keys can be set for exactly the actions of the five modes.
pub proof fn keys_are_set_for_known_actions(mode: Seq<char>, action: Seq<char>)
    ensures
        refused(mode, action) is None <==> (action_names(mode) matches Some(names)
            && names.contains(action)),
        action_names(mode) is Some <==> mode == "normal"@ || mode == "insert"@ || mode == "view"@
            || mode == "interact"@ || mode == "filter"@,
{
}

/// Each action of a `[normal]` block has its keys under its own name, and
/// setting them touches no other.
pub proof fn normal_actions_have_their_own_keys(b: TomlNormalBindings, keys: Option<Vec<String>>)
    ensures
        normal_with(b, "quit"@, keys) == (TomlNormalBindings { quit: keys, ..b }),
        normal_with(b, "insert"@, keys) == (TomlNormalBindings { insert: keys, ..b }),
        normal_with(b, "select_next"@, keys) == (TomlNormalBindings { select_next: keys, ..b }),
        normal_with(b, "select_prev"@, keys) == (TomlNormalBindings { select_prev: keys, ..b }),
        normal_with(b, "view_output"@, keys) == (TomlNormalBindings { view_output: keys, ..b }),
        normal_with(b, "interact"@, keys) == (TomlNormalBindings { interact: keys, ..b }),
        normal_with(b, "increase_workers"@, keys) == (TomlNormalBindings { increase_workers: keys, ..b }),
        normal_with(b, "decrease_workers"@, keys) == (TomlNormalBindings { decrease_workers: keys, ..b }),
        normal_with(b, "toggle_mode"@, keys) == (TomlNormalBindings { toggle_mode: keys, ..b }),
        normal_with(b, "retry"@, keys) == (TomlNormalBindings { retry: keys, ..b }),
        normal_with(b, "resume"@, keys) == (TomlNormalBindings { resume: keys, ..b }),
        normal_with(b, "move_up"@, keys) == (TomlNormalBindings { move_up: keys, ..b }),
        normal_with(b, "move_down"@, keys) == (TomlNormalBindings { move_down: keys, ..b }),
        normal_with(b, "search"@, keys) == (TomlNormalBindings { search: keys, ..b }),
        normal_with(b, "half_page_down"@, keys) == (TomlNormalBindings { half_page_down: keys, ..b }),
        normal_with(b, "half_page_up"@, keys) == (TomlNormalBindings { half_page_up: keys, ..b }),
        normal_with(b, "go_to_top"@, keys) == (TomlNormalBindings { go_to_top: keys, ..b }),
        normal_with(b, "go_to_bottom"@, keys) == (TomlNormalBindings { go_to_bottom: keys, ..b }),
{
    reveal_strlit("quit");
    reveal_strlit("insert");
    reveal_strlit("select_next");
    reveal_strlit("select_prev");
    reveal_strlit("view_output");
    reveal_strlit("interact");
    reveal_strlit("increase_workers");
    reveal_strlit("decrease_workers");
    reveal_strlit("toggle_mode");
    reveal_strlit("retry");
    reveal_strlit("resume");
    reveal_strlit("move_up");
    reveal_strlit("move_down");
    reveal_strlit("search");
    reveal_strlit("half_page_down");
    reveal_strlit("half_page_up");
    reveal_strlit("go_to_top");
    reveal_strlit("go_to_bottom");
    assert("quit"@.len() == 4 && "quit"@[0] == 'q' && "quit"@[1] == 'u' && "quit"@[3] == 't');
    assert("insert"@.len() == 6 && "insert"@[0] == 'i' && "insert"@[1] == 'n' && "insert"@[5] == 't');
    assert("select_next"@.len() == 11 && "select_next"@[0] == 's' && "select_next"@[1] == 'e' && "select_next"@[7] == 'n' && "select_next"@[10] == 't');
    assert("select_prev"@.len() == 11 && "select_prev"@[0] == 's' && "select_prev"@[1] == 'e' && "select_prev"@[7] == 'p' && "select_prev"@[10] == 'v');
    assert("view_output"@.len() == 11 && "view_output"@[0] == 'v' && "view_output"@[1] == 'i' && "view_output"@[7] == 't' && "view_output"@[10] == 't');
    assert("interact"@.len() == 8 && "interact"@[0] == 'i' && "interact"@[1] == 'n' && "interact"@[7] == 't');
    assert("increase_workers"@.len() == 16 && "increase_workers"@[0] == 'i' && "increase_workers"@[1] == 'n' && "increase_workers"@[7] == 'e' && "increase_workers"@[15] == 's');
    assert("decrease_workers"@.len() == 16 && "decrease_workers"@[0] == 'd' && "decrease_workers"@[1] == 'e' && "decrease_workers"@[7] == 'e' && "decrease_workers"@[15] == 's');
    assert("toggle_mode"@.len() == 11 && "toggle_mode"@[0] == 't' && "toggle_mode"@[1] == 'o' && "toggle_mode"@[7] == 'm' && "toggle_mode"@[10] == 'e');
    assert("retry"@.len() == 5 && "retry"@[0] == 'r' && "retry"@[1] == 'e' && "retry"@[4] == 'y');
    assert("resume"@.len() == 6 && "resume"@[0] == 'r' && "resume"@[1] == 'e' && "resume"@[5] == 'e');
    assert("move_up"@.len() == 7 && "move_up"@[0] == 'm' && "move_up"@[1] == 'o' && "move_up"@[6] == 'p');
    assert("move_down"@.len() == 9 && "move_down"@[0] == 'm' && "move_down"@[1] == 'o' && "move_down"@[7] == 'w' && "move_down"@[8] == 'n');
    assert("search"@.len() == 6 && "search"@[0] == 's' && "search"@[1] == 'e' && "search"@[5] == 'h');
    assert("half_page_down"@.len() == 14 && "half_page_down"@[0] == 'h' && "half_page_down"@[1] == 'a' && "half_page_down"@[7] == 'g' && "half_page_down"@[13] == 'n');
    assert("half_page_up"@.len() == 12 && "half_page_up"@[0] == 'h' && "half_page_up"@[1] == 'a' && "half_page_up"@[7] == 'g' && "half_page_up"@[11] == 'p');
    assert("go_to_top"@.len() == 9 && "go_to_top"@[0] == 'g' && "go_to_top"@[1] == 'o' && "go_to_top"@[7] == 'o' && "go_to_top"@[8] == 'p');
    assert("go_to_bottom"@.len() == 12 && "go_to_bottom"@[0] == 'g' && "go_to_bottom"@[1] == 'o' && "go_to_bottom"@[7] == 'o' && "go_to_bottom"@[11] == 'm');
}

/// Each action of a `[insert]` block has its keys under its own name, and
/// setting them touches no other.
pub proof fn insert_actions_have_their_own_keys(b: TomlInsertBindings, keys: Option<Vec<String>>)
    ensures
        insert_with(b, "cancel"@, keys) == (TomlInsertBindings { cancel: keys, ..b }),
        insert_with(b, "submit"@, keys) == (TomlInsertBindings { submit: keys, ..b }),
        insert_with(b, "accept_suggestion"@, keys) == (TomlInsertBindings { accept_suggestion: keys, ..b }),
        insert_with(b, "next_suggestion"@, keys) == (TomlInsertBindings { next_suggestion: keys, ..b }),
        insert_with(b, "prev_suggestion"@, keys) == (TomlInsertBindings { prev_suggestion: keys, ..b }),
{
    reveal_strlit("cancel");
    reveal_strlit("submit");
    reveal_strlit("accept_suggestion");
    reveal_strlit("next_suggestion");
    reveal_strlit("prev_suggestion");
    assert("cancel"@.len() == 6 && "cancel"@[0] == 'c' && "cancel"@[1] == 'a' && "cancel"@[5] == 'l');
    assert("submit"@.len() == 6 && "submit"@[0] == 's' && "submit"@[1] == 'u' && "submit"@[5] == 't');
    assert("accept_suggestion"@.len() == 17 && "accept_suggestion"@[0] == 'a' && "accept_suggestion"@[1] == 'c' && "accept_suggestion"@[7] == 's' && "accept_suggestion"@[16] == 'n');
    assert("next_suggestion"@.len() == 15 && "next_suggestion"@[0] == 'n' && "next_suggestion"@[1] == 'e' && "next_suggestion"@[7] == 'g' && "next_suggestion"@[14] == 'n');
    assert("prev_suggestion"@.len() == 15 && "prev_suggestion"@[0] == 'p' && "prev_suggestion"@[1] == 'r' && "prev_suggestion"@[7] == 'g' && "prev_suggestion"@[14] == 'n');
}

/// Each action of a `[view]` block has its keys under its own name, and
/// setting them touches no other.
pub proof fn view_actions_have_their_own_keys(b: TomlViewBindings, keys: Option<Vec<String>>)
    ensures
        view_with(b, "back"@, keys) == (TomlViewBindings { back: keys, ..b }),
        view_with(b, "scroll_down"@, keys) == (TomlViewBindings { scroll_down: keys, ..b }),
        view_with(b, "scroll_up"@, keys) == (TomlViewBindings { scroll_up: keys, ..b }),
        view_with(b, "interact"@, keys) == (TomlViewBindings { interact: keys, ..b }),
        view_with(b, "toggle_autoscroll"@, keys) == (TomlViewBindings { toggle_autoscroll: keys, ..b }),
        view_with(b, "kill_worker"@, keys) == (TomlViewBindings { kill_worker: keys, ..b }),
        view_with(b, "export"@, keys) == (TomlViewBindings { export: keys, ..b }),
{
    reveal_strlit("back");
    reveal_strlit("scroll_down");
    reveal_strlit("scroll_up");
    reveal_strlit("interact");
    reveal_strlit("toggle_autoscroll");
    reveal_strlit("kill_worker");
    reveal_strlit("export");
    assert("back"@.len() == 4 && "back"@[0] == 'b' && "back"@[1] == 'a' && "back"@[3] == 'k');
    assert("scroll_down"@.len() == 11 && "scroll_down"@[0] == 's' && "scroll_down"@[1] == 'c' && "scroll_down"@[7] == 'd' && "scroll_down"@[10] == 'n');
    assert("scroll_up"@.len() == 9 && "scroll_up"@[0] == 's' && "scroll_up"@[1] == 'c' && "scroll_up"@[7] == 'u' && "scroll_up"@[8] == 'p');
    assert("interact"@.len() == 8 && "interact"@[0] == 'i' && "interact"@[1] == 'n' && "interact"@[7] == 't');
    assert("toggle_autoscroll"@.len() == 17 && "toggle_autoscroll"@[0] == 't' && "toggle_autoscroll"@[1] == 'o' && "toggle_autoscroll"@[7] == 'a' && "toggle_autoscroll"@[16] == 'l');
    assert("kill_worker"@.len() == 11 && "kill_worker"@[0] == 'k' && "kill_worker"@[1] == 'i' && "kill_worker"@[7] == 'r' && "kill_worker"@[10] == 'r');
    assert("export"@.len() == 6 && "export"@[0] == 'e' && "export"@[1] == 'x' && "export"@[5] == 't');
}

/// Each action of a `[interact]` block has its keys under its own name, and
/// setting them touches no other.
pub proof fn interact_actions_have_their_own_keys(b: TomlInteractBindings, keys: Option<Vec<String>>)
    ensures
        interact_with(b, "back"@, keys) == (TomlInteractBindings { back: keys, ..b }),
        interact_with(b, "send"@, keys) == (TomlInteractBindings { send: keys, ..b }),
{
    reveal_strlit("back");
    reveal_strlit("send");
    assert("back"@.len() == 4 && "back"@[0] == 'b' && "back"@[1] == 'a' && "back"@[3] == 'k');
    assert("send"@.len() == 4 && "send"@[0] == 's' && "send"@[1] == 'e' && "send"@[3] == 'd');
}

/// Each action of a `[filter]` block has its keys under its own name, and
/// setting them touches no other.
pub proof fn filter_actions_have_their_own_keys(b: TomlFilterBindings, keys: Option<Vec<String>>)
    ensures
        filter_with(b, "confirm"@, keys) == (TomlFilterBindings { confirm: keys, ..b }),
        filter_with(b, "cancel"@, keys) == (TomlFilterBindings { cancel: keys, ..b }),
{
    reveal_strlit("confirm");
    reveal_strlit("cancel");
    assert("confirm"@.len() == 7 && "confirm"@[0] == 'c' && "confirm"@[1] == 'o' && "confirm"@[6] == 'm');
    assert("cancel"@.len() == 6 && "cancel"@[0] == 'c' && "cancel"@[1] == 'a' && "cancel"@[5] == 'l');
}

} // verus!
