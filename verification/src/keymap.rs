//! Key bindings and the configuration file that sets them.

use vstd::prelude::*;
use vstd::string::*;

use crate::order::{before, sort_by_name, sorted_by_name_sorts, Named};
use crate::text;

verus! {

// ---------------------------------------------------------------------
// The configuration file
// ---------------------------------------------------------------------

/// Keys that are bound to one action, if the file says so.
pub type Keys = Option<Vec<String>>;

/// The configuration file.
#[derive(Debug, PartialEq)]
pub struct TomlConfig {
    pub settings: Option<TomlSettings>,
    pub normal: Option<TomlNormalBindings>,
    pub insert: Option<TomlInsertBindings>,
    pub view: Option<TomlViewBindings>,
    pub interact: Option<TomlInteractBindings>,
    pub filter: Option<TomlFilterBindings>,
    /// Messages by their keys; no key occurs twice.
    pub quick_prompts: Option<Vec<(String, String)>>,
    pub sources: Option<TomlSources>,
}

/// The `[settings]` block.
#[derive(Debug, PartialEq)]
pub struct TomlSettings {
    pub max_saved_prompts: Option<usize>,
    pub worktree_cleanup: Option<String>,
    pub list_ratio: Option<u8>,
}

/// The `[normal]` block.
#[derive(Debug, PartialEq)]
pub struct TomlNormalBindings {
    pub quit: Option<Vec<String>>,
    pub insert: Option<Vec<String>>,
    pub select_next: Option<Vec<String>>,
    pub select_prev: Option<Vec<String>>,
    pub view_output: Option<Vec<String>>,
    pub interact: Option<Vec<String>>,
    pub increase_workers: Option<Vec<String>>,
    pub decrease_workers: Option<Vec<String>>,
    pub toggle_mode: Option<Vec<String>>,
    pub retry: Option<Vec<String>>,
    pub resume: Option<Vec<String>>,
    pub move_up: Option<Vec<String>>,
    pub move_down: Option<Vec<String>>,
    pub search: Option<Vec<String>>,
    pub half_page_down: Option<Vec<String>>,
    pub half_page_up: Option<Vec<String>>,
    pub go_to_top: Option<Vec<String>>,
    pub go_to_bottom: Option<Vec<String>>,
    pub shrink_list: Option<Vec<String>>,
    pub grow_list: Option<Vec<String>>,
    pub show_help: Option<Vec<String>>,
    pub toggle_select: Option<Vec<String>>,
    pub select_all_visible: Option<Vec<String>>,
    pub visual_select: Option<Vec<String>>,
    pub delete_selected: Option<Vec<String>>,
    pub kill_selected: Option<Vec<String>>,
}

/// The `[insert]` block.
#[derive(Debug, PartialEq)]
pub struct TomlInsertBindings {
    pub cancel: Option<Vec<String>>,
    pub submit: Option<Vec<String>>,
    pub accept_suggestion: Option<Vec<String>>,
    pub next_suggestion: Option<Vec<String>>,
    pub prev_suggestion: Option<Vec<String>>,
}

/// The `[view]` block.
#[derive(Debug, PartialEq)]
pub struct TomlViewBindings {
    pub back: Option<Vec<String>>,
    pub scroll_down: Option<Vec<String>>,
    pub scroll_up: Option<Vec<String>>,
    pub interact: Option<Vec<String>>,
    pub toggle_autoscroll: Option<Vec<String>>,
    pub kill_worker: Option<Vec<String>>,
    pub export: Option<Vec<String>>,
    pub toggle_split: Option<Vec<String>>,
}

/// The `[interact]` block.
#[derive(Debug, PartialEq)]
pub struct TomlInteractBindings {
    pub back: Option<Vec<String>>,
    pub send: Option<Vec<String>>,
}

/// The `[filter]` block.
#[derive(Debug, PartialEq)]
pub struct TomlFilterBindings {
    pub confirm: Option<Vec<String>>,
    pub cancel: Option<Vec<String>>,
}

/// The `[sources]` block.
#[derive(Debug, PartialEq)]
pub struct TomlSources {
    pub jira: Option<TomlSourcesJira>,
}

/// The `[sources.jira]` block.
#[derive(Debug, PartialEq)]
pub struct TomlSourcesJira {
    pub url: Option<String>,
    pub email: Option<String>,
    pub auth_token_env: Option<String>,
    pub poll_interval_secs: Option<u64>,
    pub max_concurrent_explore: Option<usize>,
    pub idle_explore_timeout: Option<u64>,
    /// The `[sources.jira.queues.<name>]` blocks; no name occurs twice.
    pub queues: Vec<TomlNamedQueue>,
}

/// A `[sources.jira.queues.<name>]` block with its name.
#[derive(Debug, PartialEq)]
pub struct TomlNamedQueue {
    pub name: String,
    pub queue: TomlSourcesJiraQueue,
}

/// A `[sources.jira.queues.<name>]` block.
#[derive(Debug, PartialEq)]
pub struct TomlSourcesJiraQueue {
    pub filter_jql: Option<String>,
    pub mode: Option<String>,
    pub comments: Option<bool>,
    pub labels: Option<bool>,
    pub trigger_label: Option<String>,
    /// Transition ids by the names of phases; no name occurs twice.
    pub transitions: Vec<(String, String)>,
}

/// A `[normal]` block that binds nothing.
pub open spec fn no_normal() -> TomlNormalBindings {
    TomlNormalBindings {
        quit: None,
        insert: None,
        select_next: None,
        select_prev: None,
        view_output: None,
        interact: None,
        increase_workers: None,
        decrease_workers: None,
        toggle_mode: None,
        retry: None,
        resume: None,
        move_up: None,
        move_down: None,
        search: None,
        half_page_down: None,
        half_page_up: None,
        go_to_top: None,
        go_to_bottom: None,
        shrink_list: None,
        grow_list: None,
        show_help: None,
        toggle_select: None,
        select_all_visible: None,
        visual_select: None,
        delete_selected: None,
        kill_selected: None,
    }
}

impl Default for TomlNormalBindings {
    fn default() -> (r: Self)
        ensures
            r == no_normal(),
    {
        TomlNormalBindings {
            quit: None,
            insert: None,
            select_next: None,
            select_prev: None,
            view_output: None,
            interact: None,
            increase_workers: None,
            decrease_workers: None,
            toggle_mode: None,
            retry: None,
            resume: None,
            move_up: None,
            move_down: None,
            search: None,
            half_page_down: None,
            half_page_up: None,
            go_to_top: None,
            go_to_bottom: None,
            shrink_list: None,
            grow_list: None,
            show_help: None,
            toggle_select: None,
            select_all_visible: None,
            visual_select: None,
            delete_selected: None,
            kill_selected: None,
        }
    }
}

/// An `[insert]` block that binds nothing.
pub open spec fn no_insert() -> TomlInsertBindings {
    TomlInsertBindings {
        cancel: None,
        submit: None,
        accept_suggestion: None,
        next_suggestion: None,
        prev_suggestion: None,
    }
}

impl Default for TomlInsertBindings {
    fn default() -> (r: Self)
        ensures
            r == no_insert(),
    {
        TomlInsertBindings {
            cancel: None,
            submit: None,
            accept_suggestion: None,
            next_suggestion: None,
            prev_suggestion: None,
        }
    }
}

/// A `[view]` block that binds nothing.
pub open spec fn no_view() -> TomlViewBindings {
    TomlViewBindings {
        back: None,
        scroll_down: None,
        scroll_up: None,
        interact: None,
        toggle_autoscroll: None,
        kill_worker: None,
        export: None,
        toggle_split: None,
    }
}

impl Default for TomlViewBindings {
    fn default() -> (r: Self)
        ensures
            r == no_view(),
    {
        TomlViewBindings {
            back: None,
            scroll_down: None,
            scroll_up: None,
            interact: None,
            toggle_autoscroll: None,
            kill_worker: None,
            export: None,
            toggle_split: None,
        }
    }
}

impl Default for TomlInteractBindings {
    fn default() -> (r: Self)
        ensures
            r == (TomlInteractBindings { back: None, send: None }),
    {
        TomlInteractBindings { back: None, send: None }
    }
}

impl Default for TomlFilterBindings {
    fn default() -> (r: Self)
        ensures
            r == (TomlFilterBindings { confirm: None, cancel: None }),
    {
        TomlFilterBindings { confirm: None, cancel: None }
    }
}

impl Default for TomlSettings {
    fn default() -> (r: Self)
        ensures
            r == (TomlSettings { max_saved_prompts: None, worktree_cleanup: None, list_ratio: None }),
    {
        TomlSettings { max_saved_prompts: None, worktree_cleanup: None, list_ratio: None }
    }
}

impl Default for TomlSourcesJiraQueue {
    fn default() -> (r: Self)
        ensures
            r.filter_jql is None,
            r.mode is None,
            r.comments is None,
            r.labels is None,
            r.trigger_label is None,
            r.transitions@ == Seq::<(String, String)>::empty(),
    {
        TomlSourcesJiraQueue {
            filter_jql: None,
            mode: None,
            comments: None,
            labels: None,
            trigger_label: None,
            transitions: Vec::new(),
        }
    }
}

impl Default for TomlSourcesJira {
    fn default() -> (r: Self)
        ensures
            r.url is None,
            r.email is None,
            r.auth_token_env is None,
            r.poll_interval_secs is None,
            r.max_concurrent_explore is None,
            r.idle_explore_timeout is None,
            r.queues@ == Seq::<TomlNamedQueue>::empty(),
    {
        TomlSourcesJira {
            url: None,
            email: None,
            auth_token_env: None,
            poll_interval_secs: None,
            max_concurrent_explore: None,
            idle_explore_timeout: None,
            queues: Vec::new(),
        }
    }
}

impl Default for TomlConfig {
    fn default() -> (r: Self)
        ensures
            r == (TomlConfig {
                settings: None,
                normal: None,
                insert: None,
                view: None,
                interact: None,
                filter: None,
                quick_prompts: None,
                sources: None,
            }),
    {
        TomlConfig {
            settings: None,
            normal: None,
            insert: None,
            view: None,
            interact: None,
            filter: None,
            quick_prompts: None,
            sources: None,
        }
    }
}

/// The settings of a configuration, or none where it has no such block.
pub fn load_settings(config: TomlConfig) -> (r: TomlSettings)
    ensures
        r == match config.settings {
            Some(s) => s,
            None => TomlSettings {
                max_saved_prompts: None,
                worktree_cleanup: None,
                list_ratio: None,
            },
        },
{
    match config.settings {
        Some(s) => s,
        None => TomlSettings::default(),
    }
}

// ---------------------------------------------------------------------
// Keys
// ---------------------------------------------------------------------

/// A key on the keyboard.
#[derive(Debug, Clone, Copy, PartialEq, Eq, Structural)]
pub enum KeyCode {
    Enter,
    Esc,
    Tab,
    Backspace,
    Up,
    Down,
    Left,
    Right,
    Char(char),
    /// Any other key, by a number of its own.
    Other(u32),
}

/// The key that a word names: one of the special names, or one ASCII
/// character.
pub open spec fn key_named(s: Seq<char>) -> Option<KeyCode> {
    if s == "Enter"@ {
        Some(KeyCode::Enter)
    } else if s == "Esc"@ {
        Some(KeyCode::Esc)
    } else if s == "Tab"@ {
        Some(KeyCode::Tab)
    } else if s == "Backspace"@ {
        Some(KeyCode::Backspace)
    } else if s == "Up"@ {
        Some(KeyCode::Up)
    } else if s == "Down"@ {
        Some(KeyCode::Down)
    } else if s == "Left"@ {
        Some(KeyCode::Left)
    } else if s == "Right"@ {
        Some(KeyCode::Right)
    } else if s == "Space"@ {
        Some(KeyCode::Char(' '))
    } else if s.len() == 1 && (s[0] as u32) < 128 {
        Some(KeyCode::Char(s[0]))
    } else {
        None
    }
}

/// The word that names a key.
pub open spec fn key_name(k: KeyCode) -> Seq<char> {
    match k {
        KeyCode::Char(c) => if c == ' ' {
            "Space"@
        } else {
            seq![c]
        },
        KeyCode::Enter => "Enter"@,
        KeyCode::Esc => "Esc"@,
        KeyCode::Tab => "Tab"@,
        KeyCode::Backspace => "Backspace"@,
        KeyCode::Up => "Up"@,
        KeyCode::Down => "Down"@,
        KeyCode::Left => "Left"@,
        KeyCode::Right => "Right"@,
        KeyCode::Other(_) => "?"@,
    }
}

/// The key that a word names.
pub fn parse_key(s: &str) -> (r: Option<KeyCode>)
    ensures
        r == key_named(s@),
{
    if text::same(s, "Enter") {
        Some(KeyCode::Enter)
    } else if text::same(s, "Esc") {
        Some(KeyCode::Esc)
    } else if text::same(s, "Tab") {
        Some(KeyCode::Tab)
    } else if text::same(s, "Backspace") {
        Some(KeyCode::Backspace)
    } else if text::same(s, "Up") {
        Some(KeyCode::Up)
    } else if text::same(s, "Down") {
        Some(KeyCode::Down)
    } else if text::same(s, "Left") {
        Some(KeyCode::Left)
    } else if text::same(s, "Right") {
        Some(KeyCode::Right)
    } else if text::same(s, "Space") {
        Some(KeyCode::Char(' '))
    } else if s.unicode_len() == 1 && (s.get_char(0) as u32) < 128 {
        Some(KeyCode::Char(s.get_char(0)))
    } else {
        None
    }
}

/// The word that names a key.
pub fn key_display(kc: &KeyCode) -> (r: String)
    ensures
        r@ == key_name(*kc),
{
    match *kc {
        KeyCode::Char(c) => {
            if c == ' ' {
                text::owned("Space")
            } else {
                let mut out: String = String::new();
                out.push(c);
                proof {
                    assert(out@ =~= seq![c]);
                }
                out
            }
        },
        KeyCode::Enter => text::owned("Enter"),
        KeyCode::Esc => text::owned("Esc"),
        KeyCode::Tab => text::owned("Tab"),
        KeyCode::Backspace => text::owned("Backspace"),
        KeyCode::Up => text::owned("Up"),
        KeyCode::Down => text::owned("Down"),
        KeyCode::Left => text::owned("Left"),
        KeyCode::Right => text::owned("Right"),
        KeyCode::Other(_) => text::owned("?"),
    }
}

proof fn special_names()
    ensures
        "Enter"@.len() == 5,
        "Esc"@.len() == 3,
        "Tab"@.len() == 3,
        "Backspace"@.len() == 9,
        "Up"@.len() == 2,
        "Down"@.len() == 4,
        "Left"@.len() == 4,
        "Right"@.len() == 5,
        "Space"@.len() == 5,
        "Enter"@[0] == 'E',
        "Esc"@[0] == 'E',
        "Tab"@[0] == 'T',
        "Down"@[0] == 'D',
        "Left"@[0] == 'L',
        "Right"@[0] == 'R',
        "Space"@[0] == 'S',
{
    reveal_strlit("Enter");
    reveal_strlit("Esc");
    reveal_strlit("Tab");
    reveal_strlit("Backspace");
    reveal_strlit("Up");
    reveal_strlit("Down");
    reveal_strlit("Left");
    reveal_strlit("Right");
    reveal_strlit("Space");
}

/// A key that has a name of its own or is an ASCII character is read back from
/// its word.
pub proof fn key_name_names_key(k: KeyCode)
    requires
        !(k is Other),
        k matches KeyCode::Char(c) ==> (c as u32) < 128,
    ensures
        key_named(key_name(k)) == Some(k),
{
    special_names();
}

/// A word that names a key is what the key is shown as. A blank, which is
/// shown as `Space`, is the one exception.
pub proof fn key_named_has_name(s: Seq<char>)
    requires
        key_named(s) is Some,
        s != seq![' '],
    ensures
        key_name(key_named(s)->0) == s,
{
    special_names();
    if s.len() == 1 {
        assert(s =~= seq![s[0]]);
    }
}

/// The words of keys joined by slashes, like `j/k` or `Esc/q`.
pub open spec fn keys_text(keys: Seq<KeyCode>) -> Seq<char> {
    text::joined(keys.map_values(|k: KeyCode| key_name(k)), "/"@)
}

/// Format a list of keys as a display string like `j/k` or `Esc/q`.
pub fn format_keys(keys: &[KeyCode]) -> (r: String)
    ensures
        r@ == keys_text(keys@),
{
    let mut names: Vec<String> = Vec::new();
    let mut i: usize = 0;
    while i < keys.len()
        invariant
            i <= keys.len(),
            names@.len() == i,
            forall|k: int| 0 <= k < i ==> (#[trigger] names@[k])@ == key_name(keys@[k]),
        decreases keys.len() - i,
    {
        names.push(key_display(&keys[i]));
        i = i + 1;
    }
    proof {
        assert(text::texts(names@) =~= keys@.map_values(|k: KeyCode| key_name(k)));
    }
    text::join(&names, "/")
}

// ---------------------------------------------------------------------
// Bindings
// ---------------------------------------------------------------------

/// What a key can be bound to.
pub trait Bindable: Copy {
    /// Whether this is the same action as `other`.
    fn same(&self, other: &Self) -> (r: bool)
        ensures
            r == (*self == *other),
    ;
}

/// Actions by keys; no key is bound twice.
#[derive(Debug, PartialEq)]
pub struct KeyBindings<A> {
    entries: Vec<(KeyCode, A)>,
}

/// The action that a key is bound to, where there is one.
pub open spec fn bound<A>(s: Seq<(KeyCode, A)>, k: KeyCode) -> Option<A>
    decreases s.len(),
{
    if s.len() == 0 {
        None
    } else if s.last().0 == k {
        Some(s.last().1)
    } else {
        bound(s.drop_last(), k)
    }
}

/// No key occurs twice.
pub open spec fn keys_once<A>(s: Seq<(KeyCode, A)>) -> bool {
    forall|i: int, j: int| 0 <= i < j < s.len() ==> (#[trigger] s[i]).0 != (#[trigger] s[j]).0
}

proof fn bound_at<A>(s: Seq<(KeyCode, A)>, i: int)
    requires
        keys_once(s),
        0 <= i < s.len(),
    ensures
        bound(s, s[i].0) == Some(s[i].1),
    decreases s.len(),
{
    if i < s.len() - 1 {
        assert(s[i].0 != s[s.len() - 1].0);
        assert(s.drop_last()[i] == s[i]);
        bound_at(s.drop_last(), i);
    }
}

proof fn bound_is_there<A>(s: Seq<(KeyCode, A)>, k: KeyCode)
    ensures
        bound(s, k) matches Some(a) ==> exists|i: int| 0 <= i < s.len() && #[trigger] s[i] == (k, a),
        bound(s, k) is None ==> forall|i: int| 0 <= i < s.len() ==> (#[trigger] s[i]).0 != k,
    decreases s.len(),
{
    if s.len() > 0 {
        if s.last().0 == k {
            assert(s[s.len() - 1] == (k, s.last().1));
        } else {
            let front = s.drop_last();
            bound_is_there(front, k);
            match bound(front, k) {
                Some(a) => {
                    let i = choose|i: int| 0 <= i < front.len() && #[trigger] front[i] == (k, a);
                    assert(s[i] == (k, a));
                },
                None => {
                    assert forall|i: int| 0 <= i < s.len() implies (#[trigger] s[i]).0 != k by {
                        if i < front.len() {
                            assert(front[i] == s[i]);
                        }
                    }
                },
            }
        }
    }
}

impl<A> View for KeyBindings<A> {
    type V = spec_fn(KeyCode) -> Option<A>;

    closed spec fn view(&self) -> spec_fn(KeyCode) -> Option<A> {
        |k: KeyCode| bound(self.entries@, k)
    }
}

impl<A> KeyBindings<A> {
    #[verifier::type_invariant]
    spec fn once(self) -> bool {
        keys_once(self.entries@)
    }

    /// The bindings in the order in which they are kept.
    pub closed spec fn listed(self) -> Seq<(KeyCode, A)> {
        self.entries@
    }

    /// No bindings.
    pub fn new() -> (r: KeyBindings<A>)
        ensures
            forall|k: KeyCode| (#[trigger] (r@)(k)) is None,
            r.listed().len() == 0,
    {
        KeyBindings { entries: Vec::new() }
    }

    /// The bindings, each key once.
    pub fn entries(&self) -> (r: &Vec<(KeyCode, A)>)
        ensures
            r@ == self.listed(),
            keys_once(r@),
            forall|k: KeyCode| #[trigger] (self@)(k) == bound(r@, k),
    {
        proof {
            use_type_invariant(self);
        }
        &self.entries
    }

    fn position(entries: &Vec<(KeyCode, A)>, k: KeyCode) -> (r: Option<usize>)
        requires
            keys_once(entries@),
        ensures
            r matches Some(i) ==> i < entries.len() && entries@[i as int].0 == k && bound(
                entries@,
                k,
            ) == Some(entries@[i as int].1),
            r is None ==> bound(entries@, k) is None && forall|i: int|
                0 <= i < entries@.len() ==> (#[trigger] entries@[i]).0 != k,
    {
        let mut i: usize = 0;
        while i < entries.len()
            invariant
                keys_once(entries@),
                i <= entries.len(),
                forall|j: int| 0 <= j < i ==> (#[trigger] entries@[j]).0 != k,
            decreases entries.len() - i,
        {
            if entries[i].0 == k {
                proof {
                    bound_at(entries@, i as int);
                }
                return Some(i);
            }
            i = i + 1;
        }
        proof {
            bound_is_there(entries@, k);
        }
        None
    }

    /// What `k` is bound to.
    pub fn get(&self, k: &KeyCode) -> (r: Option<&A>)
        ensures
            match (self@)(*k) {
                Some(a) => r matches Some(x) && *x == a,
                None => r is None,
            },
    {
        proof {
            use_type_invariant(self);
        }
        match KeyBindings::position(&self.entries, *k) {
            Some(i) => Some(&self.entries[i].1),
            None => None,
        }
    }

    /// Bind `k` to `action`, whatever it was bound to.
    pub fn insert(&mut self, k: KeyCode, action: A)
        ensures
            (final(self)@)(k) == Some(action),
            forall|j: KeyCode| j != k ==> #[trigger] (final(self)@)(j) == (old(self)@)(j),
    {
        proof {
            use_type_invariant(&*self);
        }
        let ghost before = self.entries@;
        let mut entries: Vec<(KeyCode, A)> = Vec::new();
        std::mem::swap(&mut entries, &mut self.entries);
        match KeyBindings::position(&entries, k) {
            Some(i) => {
                entries.set(i, (k, action));
                proof {
                    let after = entries@;
                    assert forall|p: int, q: int| 0 <= p < q < after.len() implies (
                    #[trigger] after[p]).0 != (#[trigger] after[q]).0 by {
                        assert(before[p].0 != before[q].0);
                    }
                    bound_at(after, i as int);
                    assert forall|j: KeyCode| j != k implies #[trigger] bound(after, j) == bound(
                        before,
                        j,
                    ) by {
                        bound_is_there(before, j);
                        bound_is_there(after, j);
                        if let Some(a) = bound(before, j) {
                            let n = choose|n: int|
                                0 <= n < before.len() && #[trigger] before[n] == (j, a);
                            assert(after[n] == (j, a));
                            bound_at(after, n);
                        } else if let Some(a) = bound(after, j) {
                            let n = choose|n: int|
                                0 <= n < after.len() && #[trigger] after[n] == (j, a);
                            assert(before[n].0 == j);
                        }
                    }
                }
            },
            None => {
                entries.push((k, action));
                proof {
                    let after = entries@;
                    assert(after.drop_last() =~= before);
                }
            },
        }
        self.entries = entries;
    }
}

impl<A: Bindable> KeyBindings<A> {
    /// Take away all keys of `action`.
    pub fn unbind(&mut self, action: A)
        ensures
            forall|k: KeyCode| #[trigger]
                (final(self)@)(k) == (if (old(self)@)(k) == Some(action) {
                    None
                } else {
                    (old(self)@)(k)
                }),
    {
        proof {
            use_type_invariant(&*self);
        }
        let ghost before = self.entries@;
        let mut kept: Vec<(KeyCode, A)> = Vec::new();
        let mut i: usize = 0;
        while i < self.entries.len()
            invariant
                self.entries@ == before,
                keys_once(before),
                i <= self.entries.len(),
                keys_once(kept@),
                forall|p: int|
                    0 <= p < kept@.len() ==> (#[trigger] kept@[p]).1 != action && before.take(
                        i as int,
                    ).contains(kept@[p]),
                forall|p: int|
                    0 <= p < i && (#[trigger] before[p]).1 != action ==> kept@.contains(before[p]),
            decreases self.entries.len() - i,
        {
            let (k, a): (KeyCode, A) = self.entries[i];
            let ghost so_far = kept@;
            proof {
                assert forall|x: (KeyCode, A)| before.take(i as int).contains(x) implies before.take(
                    i + 1,
                ).contains(x) by {
                    let n = before.take(i as int).index_of(x);
                    assert(before.take(i + 1)[n] == x);
                }
                assert(before.take(i + 1)[i as int] == (k, a));
                assert(before.take(i + 1).contains((k, a)));
            }
            if !a.same(&action) {
                kept.push((k, a));
                proof {
                    assert forall|p: int, q: int| 0 <= p < q < kept@.len() implies (
                    #[trigger] kept@[p]).0 != (#[trigger] kept@[q]).0 by {
                        if q == so_far.len() {
                            assert(so_far[p] == kept@[p]);
                            let n = before.take(i as int).index_of(so_far[p]);
                            assert(before[n] == so_far[p]);
                            assert(before[n].0 != before[i as int].0);
                        } else {
                            assert(so_far[p].0 != so_far[q].0);
                        }
                    }
                    assert forall|p: int| 0 <= p < i + 1 && (#[trigger] before[p]).1 != action implies kept@.contains(
                        before[p],
                    ) by {
                        if p < i {
                            let n = so_far.index_of(before[p]);
                            assert(kept@[n] == before[p]);
                        } else {
                            assert(kept@[so_far.len() as int] == before[p]);
                        }
                    }
                }
            }
            i = i + 1;
        }
        proof {
            let after = kept@;
            assert(before.take(before.len() as int) =~= before);
            assert forall|k: KeyCode| #[trigger] bound(after, k) == (if bound(before, k) == Some(action) {
                None
            } else {
                bound(before, k)
            }) by {
                bound_is_there(before, k);
                bound_is_there(after, k);
                if let Some(a) = bound(after, k) {
                    let n = choose|n: int| 0 <= n < after.len() && #[trigger] after[n] == (k, a);
                    let m = before.index_of(after[n]);
                    bound_at(before, m);
                } else if let Some(a) = bound(before, k) {
                    if a != action {
                        let m = choose|m: int|
                            0 <= m < before.len() && #[trigger] before[m] == (k, a);
                        let n = after.index_of(before[m]);
                        assert(after[n].0 == k);
                    }
                }
            }
        }
        self.entries = kept;
    }
}

/// One of the first `n` words names `k`.
pub open spec fn names_key(words: Seq<Seq<char>>, n: int, k: KeyCode) -> bool {
    exists|i: int| 0 <= i < n && key_named(#[trigger] words[i]) == Some(k)
}

/// What a key is bound to after `action` is bound to the keys that the words
/// name, where it was bound to `before`.
pub open spec fn rebound<A>(
    before: Option<A>,
    action: A,
    words: Seq<Seq<char>>,
    k: KeyCode,
) -> Option<A> {
    if names_key(words, words.len() as int, k) {
        Some(action)
    } else if before == Some(action) {
        None
    } else {
        before
    }
}

/// Remove all existing bindings of `action`, then bind it to the keys that
/// `keys` names. Words that name no key are passed over; without `keys` the
/// bindings stay as they are.
pub fn apply_bindings<A: Bindable>(
    map: &mut KeyBindings<A>,
    action: A,
    keys: Option<Vec<String>>,
)
    ensures
        keys is None ==> *final(map) == *old(map),
        keys matches Some(words) ==> forall|k: KeyCode| #[trigger]
            (final(map)@)(k) == rebound((old(map)@)(k), action, text::texts(words@), k),
{
    match keys {
        None => {},
        Some(words) => {
            let ghost start = map@;
            let ghost ws = text::texts(words@);
            map.unbind(action);
            let mut i: usize = 0;
            while i < words.len()
                invariant
                    ws == text::texts(words@),
                    i <= words.len(),
                    forall|k: KeyCode| #[trigger]
                        (map@)(k) == (if names_key(ws, i as int, k) {
                            Some(action)
                        } else if start(k) == Some(action) {
                            None
                        } else {
                            start(k)
                        }),
                decreases words.len() - i,
            {
                let ghost before = map@;
                proof {
                    assert(ws[i as int] == words@[i as int]@);
                }
                match parse_key(words[i].as_str()) {
                    Some(kc) => {
                        map.insert(kc, action);
                    },
                    None => {},
                }
                proof {
                    assert forall|k: KeyCode| names_key(ws, i + 1, k) == (names_key(
                        ws,
                        i as int,
                        k,
                    ) || key_named(ws[i as int]) == Some(k)) by {
                        if names_key(ws, i as int, k) {
                            let n = choose|n: int|
                                0 <= n < i && key_named(#[trigger] ws[n]) == Some(k);
                            assert(key_named(ws[n]) == Some(k));
                        }
                    }
                    assert forall|k: KeyCode| #[trigger] (map@)(k) == (if names_key(ws, i + 1, k) {
                        Some(action)
                    } else if start(k) == Some(action) {
                        None
                    } else {
                        start(k)
                    }) by {
                        assert(before(k) == (if names_key(ws, i as int, k) {
                            Some(action)
                        } else if start(k) == Some(action) {
                            None
                        } else {
                            start(k)
                        }));
                    }
                }
                i = i + 1;
            }
        },
    }
}

/// A key and the word that names it.
pub struct ShownKey {
    pub shown: String,
    pub key: KeyCode,
}

impl Named for ShownKey {
    open spec fn name_text(&self) -> Seq<char> {
        self.shown@
    }

    fn name_str(&self) -> (r: &str) {
        self.shown.as_str()
    }
}

/// The keys of `keys` are all those that `map` binds to `action`, each once,
/// in the order of their words.
pub open spec fn keys_of<A>(
    map: spec_fn(KeyCode) -> Option<A>,
    action: A,
    keys: Seq<KeyCode>,
) -> bool {
    &&& keys.no_duplicates()
    &&& forall|k: KeyCode| #[trigger] keys.contains(k) <==> map(k) == Some(action)
    &&& forall|i: int, j: int|
        0 <= i < j < keys.len() ==> !before(
            key_name(#[trigger] keys[j]),
            key_name(#[trigger] keys[i]),
        )
}

/// The entries of `action` with the words of their keys.
fn shown_keys<A: Bindable>(entries: &Vec<(KeyCode, A)>, action: A) -> (r: Vec<ShownKey>)
    requires
        keys_once(entries@),
    ensures
        forall|p: int|
            0 <= p < r@.len() ==> (#[trigger] r@[p]).shown@ == key_name(r@[p].key) && bound(
                entries@,
                r@[p].key,
            ) == Some(action),
        forall|p: int, q: int|
            0 <= p < q < r@.len() ==> (#[trigger] r@[p]).key != (#[trigger] r@[q]).key,
        forall|k: KeyCode| #[trigger]
            bound(entries@, k) == Some(action) ==> exists|p: int|
                0 <= p < r@.len() && (#[trigger] r@[p]).key == k,
{
    let mut found: Vec<ShownKey> = Vec::new();
    let mut i: usize = 0;
    while i < entries.len()
        invariant
            keys_once(entries@),
            i <= entries.len(),
            forall|p: int|
                0 <= p < found@.len() ==> (#[trigger] found@[p]).shown@ == key_name(found@[p].key)
                    && exists|q: int| 0 <= q < i && entries@[q] == (found@[p].key, action),
            forall|p: int, q: int|
                0 <= p < q < found@.len() ==> (#[trigger] found@[p]).key != (#[trigger] found@[q]).key,
            forall|q: int|
                0 <= q < i && (#[trigger] entries@[q]).1 == action ==> exists|p: int|
                    0 <= p < found@.len() && (#[trigger] found@[p]).key == entries@[q].0,
        decreases entries.len() - i,
    {
        let (k, a): (KeyCode, A) = entries[i];
        let ghost so_far = found@;
        if a.same(&action) {
            let shown: String = key_display(&k);
            found.push(ShownKey { shown, key: k });
            proof {
                assert forall|p: int| 0 <= p < found@.len() implies (#[trigger] found@[p]).shown@
                    == key_name(found@[p].key) && exists|q: int|
                    0 <= q < i + 1 && entries@[q] == (found@[p].key, action) by {
                    if p == so_far.len() {
                        assert(entries@[i as int] == (found@[p].key, action));
                    } else {
                        assert(found@[p] == so_far[p]);
                    }
                }
                assert forall|p: int, q: int| 0 <= p < q < found@.len() implies (
                #[trigger] found@[p]).key != (#[trigger] found@[q]).key by {
                    if q == so_far.len() {
                        assert(found@[p] == so_far[p]);
                        let n = choose|n: int|
                            0 <= n < i && entries@[n] == (so_far[p].key, action);
                        assert(entries@[n].0 != entries@[i as int].0);
                    } else {
                        assert(found@[p] == so_far[p] && found@[q] == so_far[q]);
                    }
                }
                assert forall|q: int| 0 <= q < i + 1 && (#[trigger] entries@[q]).1 == action implies exists|
                    p: int,
                |
                    0 <= p < found@.len() && (#[trigger] found@[p]).key == entries@[q].0 by {
                    if q < i {
                        let p = choose|p: int|
                            0 <= p < so_far.len() && (#[trigger] so_far[p]).key == entries@[q].0;
                        assert(found@[p] == so_far[p]);
                    } else {
                        assert(found@[so_far.len() as int].key == entries@[q].0);
                    }
                }
            }
        }
        i = i + 1;
    }
    proof {
        let es = entries@;
        assert forall|p: int| 0 <= p < found@.len() implies bound(
            es,
            (#[trigger] found@[p]).key,
        ) == Some(action) by {
            let q = choose|q: int| 0 <= q < es.len() && es[q] == (found@[p].key, action);
            bound_at(es, q);
        }
        assert forall|k: KeyCode| #[trigger] bound(es, k) == Some(action) implies exists|p: int|
            0 <= p < found@.len() && (#[trigger] found@[p]).key == k by {
            bound_is_there(es, k);
            let q = choose|q: int| 0 <= q < es.len() && #[trigger] es[q] == (k, action);
            assert(es[q].1 == action);
        }
    }
    found
}

/// All keys bound to `action`, in the order of their words.
pub fn keys_for_action<A: Bindable>(map: &KeyBindings<A>, action: A) -> (r: Vec<KeyCode>)
    ensures
        keys_of(map@, action, r@),
{
    let entries: &Vec<(KeyCode, A)> = map.entries();
    let found: Vec<ShownKey> = shown_keys(entries, action);
    let ghost unsorted = found@;
    let sorted: Vec<ShownKey> = sort_by_name(found);
    proof {
        sorted_by_name_sorts(unsorted);
        same_members(unsorted, sorted@);
        sorted_keys_once(unsorted, sorted@);
    }
    let mut out: Vec<KeyCode> = Vec::new();
    let mut j: usize = 0;
    while j < sorted.len()
        invariant
            j <= sorted.len(),
            out@.len() == j,
            forall|p: int| 0 <= p < j ==> #[trigger] out@[p] == sorted@[p].key,
        decreases sorted.len() - j,
    {
        out.push(sorted[j].key);
        j = j + 1;
    }
    proof {
        let es = entries@;
        assert forall|p: int| 0 <= p < sorted@.len() implies (#[trigger] sorted@[p]).shown@
            == key_name(sorted@[p].key) && bound(es, sorted@[p].key) == Some(action) by {
            assert(sorted@.contains(sorted@[p]));
            let n = unsorted.index_of(sorted@[p]);
            assert(unsorted[n] == sorted@[p]);
        }
        assert forall|k: KeyCode| #[trigger] out@.contains(k) <==> (map@)(k) == Some(action) by {
            assert((map@)(k) == bound(es, k));
            if out@.contains(k) {
                let p = out@.index_of(k);
                assert(out@[p] == sorted@[p].key);
            }
            if bound(es, k) == Some(action) {
                let n = choose|n: int|
                    0 <= n < unsorted.len() && (#[trigger] unsorted[n]).key == k;
                assert(unsorted.contains(unsorted[n]));
                let p = sorted@.index_of(unsorted[n]);
                assert(sorted@[p] == unsorted[n]);
                assert(out@[p] == k);
            }
        }
        assert forall|p: int, q: int| 0 <= p < q < out@.len() implies !before(
            key_name(#[trigger] out@[q]),
            key_name(#[trigger] out@[p]),
        ) by {
            assert(!before(sorted@[q].name_text(), sorted@[p].name_text()));
        }
        assert forall|p: int, q: int| 0 <= p < q < out@.len() implies out@[p] != out@[q] by {
            assert(sorted@[p].key != sorted@[q].key);
        }
    }
    out
}

/// What has the same members counted has the same members.
proof fn same_members(a: Seq<ShownKey>, b: Seq<ShownKey>)
    requires
        a.to_multiset() == b.to_multiset(),
    ensures
        forall|x: ShownKey| #[trigger] a.contains(x) ==> b.contains(x),
        forall|x: ShownKey| #[trigger] b.contains(x) ==> a.contains(x),
{
    broadcast use vstd::seq_lib::group_to_multiset_ensures;

    assert forall|x: ShownKey| #[trigger] a.contains(x) implies b.contains(x) by {
        assert(a.to_multiset().count(x) > 0);
        assert(b.to_multiset().count(x) > 0);
    }
    assert forall|x: ShownKey| #[trigger] b.contains(x) implies a.contains(x) by {
        assert(b.to_multiset().count(x) > 0);
        assert(a.to_multiset().count(x) > 0);
    }
}

/// Sorting repeats no key.
proof fn sorted_keys_once(a: Seq<ShownKey>, b: Seq<ShownKey>)
    requires
        a.to_multiset() == b.to_multiset(),
        forall|p: int, q: int| 0 <= p < q < a.len() ==> (#[trigger] a[p]).key != (#[trigger] a[q]).key,
    ensures
        forall|p: int, q: int| 0 <= p < q < b.len() ==> (#[trigger] b[p]).key != (#[trigger] b[q]).key,
{
    broadcast use vstd::seq_lib::group_to_multiset_ensures;

    assert(a.no_duplicates());
    a.lemma_multiset_has_no_duplicates();
    b.lemma_multiset_has_no_duplicates_conv();
    assert(b.no_duplicates());
    assert forall|p: int, q: int| 0 <= p < q < b.len() implies (#[trigger] b[p]).key != (
    #[trigger] b[q]).key by {
        assert(b.contains(b[p]) && b.contains(b[q]));
        assert(a.to_multiset().count(b[p]) > 0 && a.to_multiset().count(b[q]) > 0);
        assert(a.contains(b[p]) && a.contains(b[q]));
        let i = a.index_of(b[p]);
        let j = a.index_of(b[q]);
        assert(b[p] != b[q]);
        assert(i != j);
        if i < j {
            assert(a[i].key != a[j].key);
        } else {
            assert(a[j].key != a[i].key);
        }
    }
}

/// A word names a key: the special names theirs, and one ASCII character itself.
/// No other word names one.
pub proof fn words_name_their_keys(word: Seq<char>, c: char)
    ensures
        key_named("Enter"@) == Some(KeyCode::Enter),
        key_named("Esc"@) == Some(KeyCode::Esc),
        key_named("Tab"@) == Some(KeyCode::Tab),
        key_named("Backspace"@) == Some(KeyCode::Backspace),
        key_named("Up"@) == Some(KeyCode::Up),
        key_named("Down"@) == Some(KeyCode::Down),
        key_named("Left"@) == Some(KeyCode::Left),
        key_named("Right"@) == Some(KeyCode::Right),
        key_named("Space"@) == Some(KeyCode::Char(' ')),
        (c as u32) < 128 ==> key_named(seq![c]) == Some(KeyCode::Char(c)),
        (c as u32) >= 128 ==> key_named(seq![c]) is None,
        word.len() != 1 && word != "Enter"@ && word != "Esc"@ && word != "Tab"@ && word != "Backspace"@ && word != "Up"@ && word != "Down"@ && word != "Left"@ && word != "Right"@ && word != "Space"@
            ==> key_named(word) is None,
{
    special_names();
}

/// After an action is bound anew, it is bound to exactly the keys that are
/// named; keys that other actions had and that are not named keep theirs.
pub proof fn actions_are_bound_to_what_is_named<A>(
    before: Option<A>,
    action: A,
    words: Seq<Seq<char>>,
    k: KeyCode,
)
    ensures
        rebound(before, action, words, k) == Some(action) <==> exists|i: int|
            0 <= i < words.len() && key_named(#[trigger] words[i]) == Some(k),
        (forall|i: int| 0 <= i < words.len() ==> key_named(#[trigger] words[i]) != Some(k)) && before
            != Some(action) ==> rebound(before, action, words, k) == before,
        (forall|i: int| 0 <= i < words.len() ==> key_named(#[trigger] words[i]) != Some(k)) && before
            == Some(action) ==> rebound(before, action, words, k) is None,
{
    if names_key(words, words.len() as int, k) {
        let i = choose|i: int|
            0 <= i < words.len() && key_named(#[trigger] words[i]) == Some(k);
        assert(key_named(words[i]) == Some(k));
    }
}

} // verus!
