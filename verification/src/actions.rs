//! What keys do in each mode of the interface.

use vstd::prelude::*;
use vstd::string::*;

use crate::keymap::{key_display, key_name, keys_for_action, keys_of, Bindable, KeyBindings, KeyCode};
use crate::order::{in_name_order, sort_by_name, sorted_by_name, sorted_by_name_sorts, Named};
use crate::text;

verus! {

/// What a key does in normal mode.
#[derive(Debug, Clone, Copy, PartialEq, Eq, Structural)]
pub enum NormalAction {
    Quit,
    Insert,
    SelectNext,
    SelectPrev,
    ViewOutput,
    Interact,
    IncreaseWorkers,
    DecreaseWorkers,
    ToggleMode,
    Retry,
    Resume,
    MoveUp,
    MoveDown,
    Search,
    HalfPageDown,
    HalfPageUp,
    GoToTop,
    GoToBottom,
}

impl Bindable for NormalAction {
    fn same(&self, other: &Self) -> (r: bool) {
        *self == *other
    }
}

/// What a key does in insert mode.
#[derive(Debug, Clone, Copy, PartialEq, Eq, Structural)]
pub enum InsertAction {
    Cancel,
    Submit,
    AcceptSuggestion,
    NextSuggestion,
    PrevSuggestion,
}

impl Bindable for InsertAction {
    fn same(&self, other: &Self) -> (r: bool) {
        *self == *other
    }
}

/// What a key does in view mode.
#[derive(Debug, Clone, Copy, PartialEq, Eq, Structural)]
pub enum ViewAction {
    Back,
    ScrollDown,
    ScrollUp,
    Interact,
    ToggleAutoscroll,
    KillWorker,
    Export,
}

impl Bindable for ViewAction {
    fn same(&self, other: &Self) -> (r: bool) {
        *self == *other
    }
}

/// What a key does in interact mode.
#[derive(Debug, Clone, Copy, PartialEq, Eq, Structural)]
pub enum InteractAction {
    Back,
    Send,
}

impl Bindable for InteractAction {
    fn same(&self, other: &Self) -> (r: bool) {
        *self == *other
    }
}

/// What a key does in filter mode.
#[derive(Debug, Clone, Copy, PartialEq, Eq, Structural)]
pub enum FilterAction {
    Confirm,
    Cancel,
}

impl Bindable for FilterAction {
    fn same(&self, other: &Self) -> (r: bool) {
        *self == *other
    }
}

/// The keys of all modes.
#[derive(Debug, PartialEq)]
pub struct Keymap {
    pub normal: KeyBindings<NormalAction>,
    pub insert: KeyBindings<InsertAction>,
    pub view: KeyBindings<ViewAction>,
    pub interact: KeyBindings<InteractAction>,
    pub filter: KeyBindings<FilterAction>,
}

/// An action's name and, in order, the words of all keys that are bound to it.
pub open spec fn inverted<A>(
    entry: (String, Vec<String>),
    map: spec_fn(KeyCode) -> Option<A>,
    action: A,
    name: Seq<char>,
) -> bool {
    &&& entry.0@ == name
    &&& exists|keys: Seq<KeyCode>| #[trigger]
        keys_of(map, action, keys) && text::texts(entry.1@) == keys.map_values(
            |k: KeyCode| key_name(k),
        )
}

/// For every action its name and the words of its keys, in the order of
/// `actions`.
pub open spec fn inverted_each<A>(
    r: Seq<(String, Vec<String>)>,
    map: spec_fn(KeyCode) -> Option<A>,
    actions: Seq<(A, Seq<char>)>,
) -> bool {
    &&& r.len() == actions.len()
    &&& forall|i: int|
        0 <= i < r.len() ==> inverted(#[trigger] r[i], map, actions[i].0, actions[i].1)
}

/// For every action its name and the words of its keys, in the order of the
/// names.
pub open spec fn inverted_all<A>(
    r: Seq<(String, Vec<String>)>,
    map: spec_fn(KeyCode) -> Option<A>,
    actions: Seq<(A, Seq<char>)>,
) -> bool {
    exists|each: Seq<(String, Vec<String>)>| #[trigger]
        inverted_each(each, map, actions) && r == sorted_by_name(each)
}

impl Named for (String, Vec<String>) {
    open spec fn name_text(&self) -> Seq<char> {
        self.0@
    }

    fn name_str(&self) -> (r: &str) {
        self.0.as_str()
    }
}

/// The list of the actions of a mode is in the order of their names, and has
/// one entry for each action.
pub proof fn keys_are_listed_by_name<A>(
    r: Seq<(String, Vec<String>)>,
    map: spec_fn(KeyCode) -> Option<A>,
    actions: Seq<(A, Seq<char>)>,
)
    requires
        inverted_all(r, map, actions),
    ensures
        in_name_order(r),
        r.len() == actions.len(),
{
    let each = choose|each: Seq<(String, Vec<String>)>| #[trigger]
        inverted_each(each, map, actions) && r == sorted_by_name(each);
    sorted_by_name_sorts(each);
}

/// Actions with their names, each name by its characters.
pub open spec fn named_actions<A>(actions: Seq<(A, &str)>) -> Seq<(A, Seq<char>)> {
    actions.map_values(|p: (A, &str)| (p.0, p.1@))
}

/// For every action of `actions` its name and the words of its keys, in the
/// order of the names.
pub fn invert_map<A: Bindable>(map: &KeyBindings<A>, actions: &Vec<(A, &str)>) -> (r: Vec<
    (String, Vec<String>),
>)
    ensures
        inverted_all(r@, map@, named_actions(actions@)),
{
    let mut result: Vec<(String, Vec<String>)> = Vec::new();
    let mut i: usize = 0;
    while i < actions.len()
        invariant
            i <= actions.len(),
            result@.len() == i,
            forall|k: int|
                0 <= k < i ==> inverted(
                    #[trigger] result@[k],
                    map@,
                    actions@[k].0,
                    actions@[k].1@,
                ),
        decreases actions.len() - i,
    {
        let (action, name): (A, &str) = actions[i];
        let keys: Vec<KeyCode> = keys_for_action(map, action);
        let mut words: Vec<String> = Vec::new();
        let mut j: usize = 0;
        while j < keys.len()
            invariant
                j <= keys.len(),
                words@.len() == j,
                forall|k: int| 0 <= k < j ==> (#[trigger] words@[k])@ == key_name(keys@[k]),
            decreases keys.len() - j,
        {
            words.push(key_display(&keys[j]));
            j = j + 1;
        }
        proof {
            assert(text::texts(words@) =~= keys@.map_values(|k: KeyCode| key_name(k)));
            assert(keys_of(map@, action, keys@));
        }
        result.push((text::owned(name), words));
        i = i + 1;
    }
    proof {
        assert(inverted_each(result@, map@, named_actions(actions@)));
    }
    sort_by_name(result)
}

/// The actions of normal mode.
pub open spec fn normal_actions() -> Seq<(NormalAction, Seq<char>)> {
    seq![
        (NormalAction::Quit, "quit"@),
        (NormalAction::Insert, "insert"@),
        (NormalAction::SelectNext, "select_next"@),
        (NormalAction::SelectPrev, "select_prev"@),
        (NormalAction::ViewOutput, "view_output"@),
        (NormalAction::Interact, "interact"@),
        (NormalAction::IncreaseWorkers, "increase_workers"@),
        (NormalAction::DecreaseWorkers, "decrease_workers"@),
        (NormalAction::ToggleMode, "toggle_mode"@),
        (NormalAction::Retry, "retry"@),
        (NormalAction::Resume, "resume"@),
        (NormalAction::MoveUp, "move_up"@),
        (NormalAction::MoveDown, "move_down"@),
        (NormalAction::Search, "search"@),
        (NormalAction::HalfPageDown, "half_page_down"@),
        (NormalAction::HalfPageUp, "half_page_up"@),
        (NormalAction::GoToTop, "go_to_top"@),
        (NormalAction::GoToBottom, "go_to_bottom"@),
    ]
}

/// The actions of normal mode and their keys.
pub fn invert_normal(km: &Keymap) -> (r: Vec<(String, Vec<String>)>)
    ensures
        inverted_all(r@, km.normal@, normal_actions()),
{
    let actions: Vec<(NormalAction, &str)> = vec![
        (NormalAction::Quit, "quit"),
        (NormalAction::Insert, "insert"),
        (NormalAction::SelectNext, "select_next"),
        (NormalAction::SelectPrev, "select_prev"),
        (NormalAction::ViewOutput, "view_output"),
        (NormalAction::Interact, "interact"),
        (NormalAction::IncreaseWorkers, "increase_workers"),
        (NormalAction::DecreaseWorkers, "decrease_workers"),
        (NormalAction::ToggleMode, "toggle_mode"),
        (NormalAction::Retry, "retry"),
        (NormalAction::Resume, "resume"),
        (NormalAction::MoveUp, "move_up"),
        (NormalAction::MoveDown, "move_down"),
        (NormalAction::Search, "search"),
        (NormalAction::HalfPageDown, "half_page_down"),
        (NormalAction::HalfPageUp, "half_page_up"),
        (NormalAction::GoToTop, "go_to_top"),
        (NormalAction::GoToBottom, "go_to_bottom"),
    ];
    proof {
        assert(named_actions(actions@) =~= normal_actions());
    }
    invert_map(&km.normal, &actions)
}

/// The actions of insert mode.
pub open spec fn insert_actions() -> Seq<(InsertAction, Seq<char>)> {
    seq![
        (InsertAction::Cancel, "cancel"@),
        (InsertAction::Submit, "submit"@),
        (InsertAction::AcceptSuggestion, "accept_suggestion"@),
        (InsertAction::NextSuggestion, "next_suggestion"@),
        (InsertAction::PrevSuggestion, "prev_suggestion"@),
    ]
}

/// The actions of insert mode and their keys.
pub fn invert_insert(km: &Keymap) -> (r: Vec<(String, Vec<String>)>)
    ensures
        inverted_all(r@, km.insert@, insert_actions()),
{
    let actions: Vec<(InsertAction, &str)> = vec![
        (InsertAction::Cancel, "cancel"),
        (InsertAction::Submit, "submit"),
        (InsertAction::AcceptSuggestion, "accept_suggestion"),
        (InsertAction::NextSuggestion, "next_suggestion"),
        (InsertAction::PrevSuggestion, "prev_suggestion"),
    ];
    proof {
        assert(named_actions(actions@) =~= insert_actions());
    }
    invert_map(&km.insert, &actions)
}

/// The actions of view mode.
pub open spec fn view_actions() -> Seq<(ViewAction, Seq<char>)> {
    seq![
        (ViewAction::Back, "back"@),
        (ViewAction::ScrollDown, "scroll_down"@),
        (ViewAction::ScrollUp, "scroll_up"@),
        (ViewAction::Interact, "interact"@),
        (ViewAction::ToggleAutoscroll, "toggle_autoscroll"@),
        (ViewAction::KillWorker, "kill_worker"@),
        (ViewAction::Export, "export"@),
    ]
}

/// The actions of view mode and their keys.
pub fn invert_view(km: &Keymap) -> (r: Vec<(String, Vec<String>)>)
    ensures
        inverted_all(r@, km.view@, view_actions()),
{
    let actions: Vec<(ViewAction, &str)> = vec![
        (ViewAction::Back, "back"),
        (ViewAction::ScrollDown, "scroll_down"),
        (ViewAction::ScrollUp, "scroll_up"),
        (ViewAction::Interact, "interact"),
        (ViewAction::ToggleAutoscroll, "toggle_autoscroll"),
        (ViewAction::KillWorker, "kill_worker"),
        (ViewAction::Export, "export"),
    ];
    proof {
        assert(named_actions(actions@) =~= view_actions());
    }
    invert_map(&km.view, &actions)
}

/// The actions of interact mode.
pub open spec fn interact_actions() -> Seq<(InteractAction, Seq<char>)> {
    seq![
        (InteractAction::Back, "back"@),
        (InteractAction::Send, "send"@),
    ]
}

/// The actions of interact mode and their keys.
pub fn invert_interact(km: &Keymap) -> (r: Vec<(String, Vec<String>)>)
    ensures
        inverted_all(r@, km.interact@, interact_actions()),
{
    let actions: Vec<(InteractAction, &str)> = vec![
        (InteractAction::Back, "back"),
        (InteractAction::Send, "send"),
    ];
    proof {
        assert(named_actions(actions@) =~= interact_actions());
    }
    invert_map(&km.interact, &actions)
}

/// The actions of filter mode.
pub open spec fn filter_actions() -> Seq<(FilterAction, Seq<char>)> {
    seq![
        (FilterAction::Confirm, "confirm"@),
        (FilterAction::Cancel, "cancel"@),
    ]
}

/// The actions of filter mode and their keys.
pub fn invert_filter(km: &Keymap) -> (r: Vec<(String, Vec<String>)>)
    ensures
        inverted_all(r@, km.filter@, filter_actions()),
{
    let actions: Vec<(FilterAction, &str)> = vec![
        (FilterAction::Confirm, "confirm"),
        (FilterAction::Cancel, "cancel"),
    ];
    proof {
        assert(named_actions(actions@) =~= filter_actions());
    }
    invert_map(&km.filter, &actions)
}

/// The list of a mode holds for each action an entry under its name, with the
/// words of exactly the keys that are bound to it.
pub proof fn lists_hold_the_keys_of_each_action<A>(
    r: Seq<(String, Vec<String>)>,
    map: spec_fn(KeyCode) -> Option<A>,
    actions: Seq<(A, Seq<char>)>,
    i: int,
)
    requires
        inverted_all(r, map, actions),
        0 <= i < actions.len(),
    ensures
        exists|j: int|
            0 <= j < r.len() && (#[trigger] r[j]).0@ == actions[i].1 && (forall|word: Seq<char>|
                #[trigger]
                text::texts(r[j].1@).contains(word) <==> exists|k: KeyCode|
                    #[trigger] map(k) == Some(actions[i].0) && key_name(k) == word),
{
    broadcast use vstd::seq_lib::group_to_multiset_ensures;

    let each = choose|each: Seq<(String, Vec<String>)>| #[trigger]
        inverted_each(each, map, actions) && r == sorted_by_name(each);
    sorted_by_name_sorts(each);
    let entry = each[i];
    assert(inverted(each[i], map, actions[i].0, actions[i].1));
    assert(each.contains(entry));
    assert(each.to_multiset().count(entry) > 0);
    assert(r.to_multiset().count(entry) > 0);
    assert(r.contains(entry));
    let j = r.index_of(entry);
    let keys = choose|keys: Seq<KeyCode>| #[trigger]
        keys_of(map, actions[i].0, keys) && text::texts(entry.1@) == keys.map_values(
            |k: KeyCode| key_name(k),
        );
    let words = text::texts(entry.1@);
    assert forall|word: Seq<char>| #[trigger] words.contains(word) <==> exists|k: KeyCode|
        #[trigger] map(k) == Some(actions[i].0) && key_name(k) == word by {
        if words.contains(word) {
            let n = words.index_of(word);
            assert(keys.contains(keys[n]));
            assert(map(keys[n]) == Some(actions[i].0));
        }
        if exists|k: KeyCode| #[trigger] map(k) == Some(actions[i].0) && key_name(k) == word {
            let k = choose|k: KeyCode|
                #[trigger] map(k) == Some(actions[i].0) && key_name(k) == word;
            assert(keys.contains(k));
            let n = keys.index_of(k);
            assert(words[n] == word);
        }
    }
    assert(r[j].0@ == actions[i].1);
}

} // verus!
