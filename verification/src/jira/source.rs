//! Polling the queues of a Jira site.
//!
//! A poll asks for the tickets that match the filter of each queue and
//! compares them with those that matched before: what is new appeared, what is
//! gone left. A search that failed changes nothing, so that an outage does not
//! make every ticket leave and appear again. [`ConcurrencyGate`] holds back
//! tickets while as many are being explored as are allowed at once.

use vstd::prelude::*;
use vstd::string::*;

use super::error::{jira_error_text, JiraError, JiraErrorView};
use super::event::{
    event_option, payload_views, JiraEvent, JiraEventView, JiraTicketPayload, PayloadView,
};
use crate::order::{finite_names_have_order, in_order, listed_names_are_the_names, name_set_is_finite, ordered_names, NameSet};
use crate::paths;
use crate::text;
use crate::time::Nanos;

verus! {

/// The shortest time between two polls.
pub const MIN_POLL_INTERVAL: u128 = 15_000_000_000;

/// The time between two polls where none is configured.
pub const DEFAULT_POLL_INTERVAL: u128 = 30_000_000_000;

/// How many tickets a search asks for.
pub const DEFAULT_MAX_RESULTS: u32 = 100;

/// How many tickets may be explored at once where no number is configured.
pub const DEFAULT_MAX_CONCURRENT_EXPLORE: usize = 5;

// ---------------------------------------------------------------------
// Configuration
// ---------------------------------------------------------------------

/// A named filter.
#[derive(Debug, PartialEq)]
pub struct QueueConfig {
    pub name: String,
    pub filter_jql: String,
}

/// What a [`QueueConfig`] holds.
pub ghost struct QueueConfigView {
    pub name: Seq<char>,
    pub filter_jql: Seq<char>,
}

impl View for QueueConfig {
    type V = QueueConfigView;

    open spec fn view(&self) -> QueueConfigView {
        QueueConfigView { name: self.name@, filter_jql: self.filter_jql@ }
    }
}

impl Clone for QueueConfig {
    fn clone(&self) -> (r: Self)
        ensures
            r@ == self@,
    {
        QueueConfig { name: self.name.clone(), filter_jql: self.filter_jql.clone() }
    }
}

/// What a list of queues holds.
pub open spec fn queue_views(qs: Seq<QueueConfig>) -> Seq<QueueConfigView> {
    qs.map_values(|q: QueueConfig| q@)
}

/// What the poll loop is configured with.
#[derive(Debug, Clone, PartialEq)]
pub struct JiraSourceConfig {
    pub poll_interval: Nanos,
    pub queues: Vec<QueueConfig>,
    pub max_results: u32,
}

/// The larger of two spans.
pub open spec fn longer(a: Nanos, b: Nanos) -> Nanos {
    if a < b {
        b
    } else {
        a
    }
}

impl JiraSourceConfig {
    /// A configuration that polls no more often than [`MIN_POLL_INTERVAL`].
    pub fn new(poll_interval: Nanos, queues: Vec<QueueConfig>) -> (r: JiraSourceConfig)
        ensures
            r.poll_interval == longer(poll_interval, MIN_POLL_INTERVAL),
            r.queues@ == queues@,
            r.max_results == DEFAULT_MAX_RESULTS,
    {
        let poll_interval: Nanos = if poll_interval < MIN_POLL_INTERVAL {
            MIN_POLL_INTERVAL
        } else {
            poll_interval
        };
        JiraSourceConfig { poll_interval, queues, max_results: DEFAULT_MAX_RESULTS }
    }

    /// Whether [`JiraSourceConfig::new`] raises the interval `requested`.
    pub fn was_clamped(requested: Nanos) -> (r: bool)
        ensures
            r == (requested != longer(requested, MIN_POLL_INTERVAL)),
    {
        requested < MIN_POLL_INTERVAL
    }
}

impl Default for JiraSourceConfig {
    fn default() -> (r: Self)
        ensures
            r.poll_interval == DEFAULT_POLL_INTERVAL,
            r.queues@ == Seq::<QueueConfig>::empty(),
            r.max_results == DEFAULT_MAX_RESULTS,
    {
        JiraSourceConfig {
            poll_interval: DEFAULT_POLL_INTERVAL,
            queues: Vec::new(),
            max_results: DEFAULT_MAX_RESULTS,
        }
    }
}

/// Where the keys that were last seen in a queue are kept.
#[derive(Debug, Clone, PartialEq)]
pub struct JiraSourceStore {
    pub dir: String,
}

impl JiraSourceStore {
    /// The store in the directory `dir`.
    pub fn open(dir: String) -> (r: JiraSourceStore)
        ensures
            r.dir@ == dir@,
    {
        JiraSourceStore { dir }
    }

    /// The store in its usual place below the data directory.
    pub fn open_default(data_dir: Option<String>) -> (r: Option<JiraSourceStore>)
        ensures
            match data_dir {
                Some(d) => r is Some && r->0.dir@ == paths::joined_path(d@, "jira"@),
                None => r is None,
            },
    {
        match data_dir {
            Some(d) => Some(JiraSourceStore::open(paths::join_path(d.as_str(), "jira"))),
            None => None,
        }
    }

    /// The file for one queue.
    pub fn file_path(&self, queue_name: &str) -> (r: String)
        ensures
            r@ == paths::joined_path(self.dir@, queue_name@ + ".json"@),
    {
        let file: String = text::cat2(queue_name, ".json");
        paths::join_path(self.dir.as_str(), file.as_str())
    }
}

// ---------------------------------------------------------------------
// Comparing two polls
// ---------------------------------------------------------------------

/// What one poll of a queue came to.
#[derive(Debug, Clone, PartialEq, Eq)]
pub enum PollOutcome {
    /// Something for the scheduler to act on.
    Event(JiraEvent),
    /// The search for `queue` failed.
    Error { queue: String, message: String },
}

/// What a [`PollOutcome`] holds.
pub ghost enum PollOutcomeView {
    Event(JiraEventView),
    Error { queue: Seq<char>, message: Seq<char> },
}

impl View for PollOutcome {
    type V = PollOutcomeView;

    open spec fn view(&self) -> PollOutcomeView {
        match *self {
            PollOutcome::Event(e) => PollOutcomeView::Event(e@),
            PollOutcome::Error { queue, message } => PollOutcomeView::Error {
                queue: queue@,
                message: message@,
            },
        }
    }
}

/// What a list of outcomes holds.
pub open spec fn outcome_views(os: Seq<PollOutcome>) -> Seq<PollOutcomeView> {
    os.map_values(|o: PollOutcome| o@)
}

/// The keys of the tickets that have one.
pub open spec fn keys_of(issues: Seq<PayloadView>) -> Set<Seq<char>> {
    Set::new(
        |k: Seq<char>|
            k.len() > 0 && exists|i: int| 0 <= i < issues.len() && #[trigger] issues[i].key == k,
    )
}

/// The last ticket with the key `key`.
pub open spec fn ticket(issues: Seq<PayloadView>, key: Seq<char>) -> Option<PayloadView>
    decreases issues.len(),
{
    if issues.len() == 0 {
        None
    } else if issues.last().key == key {
        Some(issues.last())
    } else {
        ticket(issues.drop_last(), key)
    }
}

/// The events for the tickets that appeared.
pub open spec fn appeared_events(issues: Seq<PayloadView>, keys: Seq<Seq<char>>) -> Seq<
    PollOutcomeView,
> {
    keys.map_values(
        |k: Seq<char>|
            PollOutcomeView::Event(
                JiraEventView::TicketAppeared { key: k, payload: ticket(issues, k)->0 },
            ),
    )
}

/// The events for the tickets that left.
pub open spec fn left_events(keys: Seq<Seq<char>>) -> Seq<PollOutcomeView> {
    keys.map_values(
        |k: Seq<char>| PollOutcomeView::Event(JiraEventView::TicketLeftFilter { key: k }),
    )
}

/// What is reported where `issues` match and the keys in `before` matched the
/// last time: first what appeared, then what left, each in the order of the
/// keys.
pub open spec fn changes(before: Set<Seq<char>>, issues: Seq<PayloadView>) -> Seq<PollOutcomeView> {
    appeared_events(issues, in_order(keys_of(issues).difference(before))) + left_events(
        in_order(before.difference(keys_of(issues))),
    )
}

/// The keys of tickets are finitely many.
proof fn keys_are_finite(issues: Seq<PayloadView>)
    ensures
        keys_of(issues).finite(),
{
    let all = issues.map_values(|p: PayloadView| p.key);
    vstd::seq_lib::seq_to_set_is_finite(all);
    assert forall|k: Seq<char>| keys_of(issues).contains(k) implies all.to_set().contains(k) by {
        let i = choose|i: int| 0 <= i < issues.len() && #[trigger] issues[i].key == k;
        assert(all[i] == k);
    }
    vstd::set_lib::lemma_set_subset_finite(all.to_set(), keys_of(issues));
}

/// What is reported names exactly the keys that appeared and those that left,
/// each once and in order, where finitely many were seen before.
pub proof fn changes_are_listed(before: Set<Seq<char>>, issues: Seq<PayloadView>)
    requires
        before.finite(),
    ensures
        ordered_names(
            in_order(keys_of(issues).difference(before)),
            keys_of(issues).difference(before),
        ),
        ordered_names(
            in_order(before.difference(keys_of(issues))),
            before.difference(keys_of(issues)),
        ),
{
    keys_are_finite(issues);
    vstd::set_lib::lemma_set_subset_finite(keys_of(issues), keys_of(issues).difference(before));
    vstd::set_lib::lemma_set_subset_finite(before, before.difference(keys_of(issues)));
    finite_names_have_order(keys_of(issues).difference(before));
    finite_names_have_order(before.difference(keys_of(issues)));
}

/// A ticket with a key is found by it.
proof fn ticket_found(issues: Seq<PayloadView>, i: int)
    requires
        0 <= i < issues.len(),
    ensures
        ticket(issues, issues[i].key) is Some,
        ticket(issues, issues[i].key)->0.key == issues[i].key,
    decreases issues.len(),
{
    if issues.last().key != issues[i].key {
        ticket_found(issues.drop_last(), i);
    }
}

/// A queue whose tickets are the same as the last time reports nothing.
pub proof fn stable_queue_is_silent(issues: Seq<PayloadView>)
    ensures
        changes(keys_of(issues), issues) == Seq::<PollOutcomeView>::empty(),
{
    let keys = keys_of(issues);
    let none = keys.difference(keys);
    let empty = Seq::<Seq<char>>::empty();
    assert forall|x: Seq<char>| empty.contains(x) <==> none.contains(x) by {
    }
    crate::order::in_order_is(empty, none);
    assert(changes(keys, issues) =~= Seq::<PollOutcomeView>::empty());
}

/// The last ticket with the key `key`, if there is one.
fn find_ticket(issues: &Vec<JiraTicketPayload>, key: &str) -> (r: Option<JiraTicketPayload>)
    ensures
        match r {
            Some(p) => ticket(payload_views(issues@), key@) == Some(p@),
            None => ticket(payload_views(issues@), key@) is None,
        },
{
    let ghost all = payload_views(issues@);
    let mut i: usize = issues.len();
    proof {
        assert(all.take(all.len() as int) =~= all);
    }
    while i > 0
        invariant
            i <= issues.len(),
            all == payload_views(issues@),
            ticket(all, key@) == ticket(all.take(i as int), key@),
        decreases i,
    {
        proof {
            assert(all.take(i as int).last() == issues@[i - 1]@);
            assert(all.take(i as int).drop_last() =~= all.take(i - 1));
        }
        if text::same(issues[i - 1].key.as_str(), key) {
            return Some(issues[i - 1].clone());
        }
        i = i - 1;
    }
    None
}

/// The keys of the tickets that have one.
fn ticket_keys(issues: &Vec<JiraTicketPayload>) -> (r: NameSet)
    ensures
        r@ == keys_of(payload_views(issues@)),
{
    let ghost all = payload_views(issues@);
    let mut out: NameSet = NameSet::new();
    let mut i: usize = 0;
    proof {
        assert(out@ =~= keys_of(all.take(0)));
    }
    while i < issues.len()
        invariant
            i <= issues.len(),
            all == payload_views(issues@),
            out@ == keys_of(all.take(i as int)),
        decreases issues.len() - i,
    {
        let ghost t = all.take(i as int);
        let ghost u = all.take(i + 1);
        let ghost had = out@;
        if issues[i].key.as_str().unicode_len() > 0 {
            out.insert(issues[i].key.clone());
        }
        proof {
            assert(u =~= t.push(all[i as int]));
            assert(all[i as int] == issues@[i as int]@);
            assert forall|k: Seq<char>| out@.contains(k) <==> keys_of(u).contains(k) by {
                if had.contains(k) {
                    let j = choose|j: int| 0 <= j < t.len() && #[trigger] t[j].key == k;
                    assert(u[j].key == k);
                }
                if keys_of(u).contains(k) {
                    let j = choose|j: int| 0 <= j < u.len() && #[trigger] u[j].key == k;
                    if j < i {
                        assert(t[j].key == k);
                    }
                }
                assert(u[i as int].key == all[i as int].key);
            }
            assert(out@ =~= keys_of(u));
        }
        i = i + 1;
    }
    proof {
        assert(all.take(all.len() as int) =~= all);
    }
    out
}

/// What is reported of a queue, and the keys that match now.
fn compare_polls(before: &NameSet, issues: &Vec<JiraTicketPayload>) -> (r: (
    Vec<PollOutcome>,
    NameSet,
))
    ensures
        outcome_views(r.0@) == changes(before@, payload_views(issues@)),
        r.1@ == keys_of(payload_views(issues@)),
{
    let ghost all = payload_views(issues@);
    let keys: NameSet = ticket_keys(issues);
    let new_keys: NameSet = keys.difference(before);
    let appeared: Vec<String> = new_keys.to_list();
    let left: Vec<String> = before.difference(&keys).to_list();
    let ghost a = text::texts(appeared@);
    let ghost l = text::texts(left@);
    let mut out: Vec<PollOutcome> = Vec::new();
    let mut i: usize = 0;
    proof {
        assert forall|k: int| 0 <= k < a.len() implies keys_of(all).contains(#[trigger] a[k]) by {
            assert(a.contains(a[k]));
            assert(new_keys@.contains(a[k]));
        }
    }
    while i < appeared.len()
        invariant
            i <= appeared.len(),
            all == payload_views(issues@),
            a == text::texts(appeared@),
            forall|k: int| 0 <= k < a.len() ==> keys_of(all).contains(#[trigger] a[k]),
            outcome_views(out@) == appeared_events(all, a.take(i as int)),
        decreases appeared.len() - i,
    {
        let key: &String = &appeared[i];
        proof {
            assert(keys_of(all).contains(a[i as int]));
            let j = choose|j: int| 0 <= j < all.len() && #[trigger] all[j].key == a[i as int];
            ticket_found(all, j);
        }
        if let Some(payload) = find_ticket(issues, key.as_str()) {
            let ghost o = out@;
            out.push(PollOutcome::Event(JiraEvent::TicketAppeared { key: key.clone(), payload }));
            proof {
                assert(outcome_views(out@) =~= outcome_views(o).push(out@.last()@));
                assert(appeared_events(all, a.take(i + 1)) =~= appeared_events(
                    all,
                    a.take(i as int),
                ).push(
                    PollOutcomeView::Event(
                        JiraEventView::TicketAppeared {
                            key: a[i as int],
                            payload: ticket(all, a[i as int])->0,
                        },
                    ),
                ));
            }
        }
        i = i + 1;
    }
    let ghost first = out@;
    proof {
        assert(a.take(a.len() as int) =~= a);
    }
    let mut j: usize = 0;
    while j < left.len()
        invariant
            j <= left.len(),
            l == text::texts(left@),
            outcome_views(out@) == outcome_views(first) + left_events(l.take(j as int)),
        decreases left.len() - j,
    {
        let ghost o = out@;
        out.push(PollOutcome::Event(JiraEvent::TicketLeftFilter { key: left[j].clone() }));
        proof {
            assert(outcome_views(out@) =~= outcome_views(o).push(out@.last()@));
            assert(left_events(l.take(j + 1)) =~= left_events(l.take(j as int)).push(
                PollOutcomeView::Event(JiraEventView::TicketLeftFilter { key: l[j as int] }),
            ));
            assert(outcome_views(out@) =~= outcome_views(first) + left_events(l.take(j + 1)));
        }
        j = j + 1;
    }
    proof {
        assert(l.take(l.len() as int) =~= l);
    }
    (out, keys)
}

// ---------------------------------------------------------------------
// The source
// ---------------------------------------------------------------------

/// The keys that were last seen in one queue.
#[derive(Debug, PartialEq)]
struct QueueState {
    name: String,
    last_seen: NameSet,
}

/// The keys last seen in the queue `name`, by the last entry for it.
spec fn seen_in(states: Seq<QueueState>, name: Seq<char>) -> Set<Seq<char>>
    decreases states.len(),
{
    if states.len() == 0 {
        Set::empty()
    } else if states.last().name@ == name {
        states.last().last_seen@
    } else {
        seen_in(states.drop_last(), name)
    }
}

/// What was seen in a queue is finite.
proof fn seen_in_is_finite(states: Seq<QueueState>, name: Seq<char>)
    ensures
        seen_in(states, name).finite(),
    decreases states.len(),
{
    if states.len() > 0 {
        name_set_is_finite(states.last().last_seen);
        seen_in_is_finite(states.drop_last(), name);
    }
}

/// Setting the last entry for a queue changes what was seen in that queue
/// alone.
proof fn set_last(states: Seq<QueueState>, i: int, s: QueueState, name: Seq<char>)
    requires
        0 <= i < states.len(),
        states[i].name@ == s.name@,
        forall|k: int| i < k < states.len() ==> states[k].name@ != s.name@,
    ensures
        seen_in(states.update(i, s), name) == (if name == s.name@ {
            s.last_seen@
        } else {
            seen_in(states, name)
        }),
    decreases states.len(),
{
    let t = states.update(i, s);
    if i < states.len() - 1 {
        assert(t.drop_last() =~= states.drop_last().update(i, s));
        set_last(states.drop_last(), i, s, name);
    } else {
        assert(t.drop_last() =~= states.drop_last());
    }
}

/// The keys last seen, by queue.
pub type Seen = spec_fn(Seq<char>) -> Set<Seq<char>>;

/// `seen`, with the keys `keys` seen in `queue`.
pub open spec fn now_seen(seen: Seen, queue: Seq<char>, keys: Set<Seq<char>>) -> Seen {
    |name: Seq<char>| if name == queue { keys } else { seen(name) }
}

/// What the search for one queue found.
pub ghost enum SearchView {
    Found(Seq<PayloadView>),
    Failed(JiraErrorView),
}

/// What a search result holds.
pub open spec fn search_view(r: Result<Vec<JiraTicketPayload>, JiraError>) -> SearchView {
    match r {
        Ok(issues) => SearchView::Found(payload_views(issues@)),
        Err(e) => SearchView::Failed(e@),
    }
}

/// What is seen after a poll of `queue`.
pub open spec fn seen_after(seen: Seen, queue: Seq<char>, result: SearchView) -> Seen {
    match result {
        SearchView::Found(issues) => now_seen(seen, queue, keys_of(issues)),
        SearchView::Failed(_) => seen,
    }
}

/// What a poll of `queue` reports.
pub open spec fn reported(seen: Seen, queue: Seq<char>, result: SearchView) -> Seq<
    PollOutcomeView,
> {
    match result {
        SearchView::Found(issues) => changes(seen(queue), issues),
        SearchView::Failed(e) => seq![
            PollOutcomeView::Error { queue, message: jira_error_text(e) },
        ],
    }
}

/// What is seen after the polls of the first `n` queues.
pub open spec fn all_seen_after(
    seen: Seen,
    queues: Seq<QueueConfigView>,
    results: Seq<SearchView>,
    n: nat,
) -> Seen
    decreases n,
{
    if n == 0 {
        seen
    } else {
        let m = (n - 1) as nat;
        seen_after(all_seen_after(seen, queues, results, m), queues[m as int].name, results[m as int])
    }
}

/// What the polls of the first `n` queues report.
pub open spec fn all_reported(
    seen: Seen,
    queues: Seq<QueueConfigView>,
    results: Seq<SearchView>,
    n: nat,
) -> Seq<PollOutcomeView>
    decreases n,
{
    if n == 0 {
        Seq::empty()
    } else {
        let m = (n - 1) as nat;
        all_reported(seen, queues, results, m) + reported(
            all_seen_after(seen, queues, results, m),
            queues[m as int].name,
            results[m as int],
        )
    }
}

/// A search that failed leaves what was seen as it was, and is reported as an
/// error, not as tickets that left.
pub proof fn failed_poll_changes_nothing(seen: Seen, queue: Seq<char>, e: JiraErrorView)
    ensures
        seen_after(seen, queue, SearchView::Failed(e)) == seen,
        forall|i: int|
            0 <= i < reported(seen, queue, SearchView::Failed(e)).len() ==> !(#[trigger] reported(
                seen,
                queue,
                SearchView::Failed(e),
            )[i] is Event),
{
}

/// After an outage, a poll that finds what was there before reports nothing.
pub proof fn outage_is_silent(
    seen: Seen,
    queue: Seq<char>,
    issues: Seq<PayloadView>,
    e: JiraErrorView,
)
    ensures
        ({
            let first = seen_after(seen, queue, SearchView::Found(issues));
            let second = seen_after(first, queue, SearchView::Failed(e));
            reported(second, queue, SearchView::Found(issues)) == Seq::<PollOutcomeView>::empty()
        }),
{
    stable_queue_is_silent(issues);
}

/// A poll of one queue changes nothing about another.
pub proof fn queues_are_independent(
    seen: Seen,
    queue: Seq<char>,
    other: Seq<char>,
    result: SearchView,
)
    requires
        queue != other,
    ensures
        seen_after(seen, queue, result)(other) == seen(other),
{
}

/// No two queues have the same name.
pub open spec fn distinct_names(queues: Seq<QueueConfigView>) -> bool {
    forall|i: int, j: int|
        0 <= i < j < queues.len() ==> (#[trigger] queues[i]).name != (#[trigger] queues[j]).name
}

/// What a source takes over that is made anew from the keys that were kept, one
/// list for each of the first `n` queues.
pub open spec fn taken_over(
    queues: Seq<QueueConfigView>,
    kept: Seq<Seq<Seq<char>>>,
    n: nat,
) -> Seen
    decreases n,
{
    if n == 0 {
        |name: Seq<char>| Set::<Seq<char>>::empty()
    } else {
        let m = (n - 1) as nat;
        now_seen(taken_over(queues, kept, m), queues[m as int].name, kept[m as int].to_set())
    }
}

/// What was seen in a queue after the polls of the first `n` queues is what
/// its own poll left.
proof fn seen_after_own_poll(
    seen: Seen,
    queues: Seq<QueueConfigView>,
    results: Seq<SearchView>,
    n: nat,
    i: int,
)
    requires
        distinct_names(queues),
        n <= queues.len(),
        0 <= i < queues.len(),
    ensures
        all_seen_after(seen, queues, results, n)(queues[i].name) == (if i < n {
            seen_after(seen, queues[i].name, results[i])(queues[i].name)
        } else {
            seen(queues[i].name)
        }),
    decreases n,
{
    if n > 0 {
        let m = (n - 1) as nat;
        seen_after_own_poll(seen, queues, results, m, i);
        if i < m {
            assert(queues[i].name != queues[m as int].name);
        } else if i > m {
            assert(queues[m as int].name != queues[i].name);
        }
    }
}

/// What is taken over for a queue is what was kept for it.
proof fn taken_over_own(
    queues: Seq<QueueConfigView>,
    kept: Seq<Seq<Seq<char>>>,
    n: nat,
    i: int,
)
    requires
        distinct_names(queues),
        0 <= i < n <= queues.len(),
    ensures
        taken_over(queues, kept, n)(queues[i].name) == kept[i].to_set(),
    decreases n,
{
    let m = (n - 1) as nat;
    if i < m {
        taken_over_own(queues, kept, m, i);
        assert(queues[i].name != queues[m as int].name);
    }
}

/// A poll in which each queue finds what was seen in it reports nothing.
proof fn stable_queues_are_silent(
    seen: Seen,
    queues: Seq<QueueConfigView>,
    results: Seq<SearchView>,
    n: nat,
)
    requires
        distinct_names(queues),
        n <= queues.len(),
        forall|i: int|
            0 <= i < n ==> (#[trigger] results[i] matches SearchView::Found(issues) && keys_of(issues)
                == seen(queues[i].name)),
    ensures
        all_reported(seen, queues, results, n) == Seq::<PollOutcomeView>::empty(),
    decreases n,
{
    if n > 0 {
        let m = (n - 1) as nat;
        stable_queues_are_silent(seen, queues, results, m);
        seen_after_own_poll(seen, queues, results, m, m as int);
        assert(results[m as int] is Found);
        stable_queue_is_silent(results[m as int]->Found_0);
        assert(all_reported(seen, queues, results, n) =~= Seq::<PollOutcomeView>::empty());
    }
}

/// After a restart a stable filter reports nothing: where all searches of a
/// poll succeeded and the keys then seen in each queue were kept, a source that
/// takes them over, and whose searches find the same keys again, reports
/// nothing.
pub proof fn restart_is_silent(
    seen: Seen,
    queues: Seq<QueueConfigView>,
    results: Seq<SearchView>,
    kept: Seq<Seq<Seq<char>>>,
    again: Seq<SearchView>,
)
    requires
        distinct_names(queues),
        forall|i: int|
            0 <= i < queues.len() ==> ordered_names(
                #[trigger] kept[i],
                all_seen_after(seen, queues, results, queues.len())(queues[i].name),
            ),
        forall|i: int|
            0 <= i < queues.len() ==> (#[trigger] results[i] matches SearchView::Found(x)
                && again[i] matches SearchView::Found(y) && keys_of(x) == keys_of(y)),
    ensures
        all_reported(taken_over(queues, kept, queues.len()), queues, again, queues.len()) == Seq::<
            PollOutcomeView,
        >::empty(),
{
    let fresh = taken_over(queues, kept, queues.len());
    assert forall|i: int| 0 <= i < queues.len() implies (
    #[trigger] again[i] matches SearchView::Found(issues) && keys_of(issues) == fresh(
        queues[i].name,
    )) by {
        assert(results[i] is Found);
        seen_after_own_poll(seen, queues, results, queues.len(), i);
        taken_over_own(queues, kept, queues.len(), i);
        listed_names_are_the_names(
            kept[i],
            all_seen_after(seen, queues, results, queues.len())(queues[i].name),
        );
    }
    stable_queues_are_silent(fresh, queues, again, queues.len());
}

/// The queues of a Jira site and what was last seen in them.
pub struct JiraSource {
    config: JiraSourceConfig,
    states: Vec<QueueState>,
}

impl JiraSource {
    /// What the source is configured with.
    pub closed spec fn configured(self) -> JiraSourceConfig {
        self.config
    }

    /// The keys last seen, by queue.
    pub closed spec fn seen(self) -> Seen {
        |name: Seq<char>| seen_in(self.states@, name)
    }

    /// A source that has seen nothing yet.
    pub fn new(config: JiraSourceConfig) -> (r: JiraSource)
        ensures
            r.configured() == config,
            forall|q: Seq<char>| #[trigger] (r.seen())(q) == Set::<Seq<char>>::empty(),
    {
        JiraSource { config, states: Vec::new() }
    }

    /// Finitely many keys were seen in a queue.
    pub proof fn seen_is_finite(self, queue: Seq<char>)
        ensures
            (self.seen())(queue).finite(),
    {
        seen_in_is_finite(self.states@, queue);
    }

    /// A source that takes over the keys that an earlier run saw, one list for
    /// each queue.
    pub fn taking_over(config: JiraSourceConfig, kept: &Vec<Vec<String>>) -> (r: JiraSource)
        requires
            kept.len() == config.queues.len(),
        ensures
            r.configured() == config,
            r.seen() == taken_over(
                queue_views(config.queues@),
                kept@.map_values(|l: Vec<String>| text::texts(l@)),
                kept@.len(),
            ),
    {
        let ghost queues = queue_views(config.queues@);
        let ghost lists = kept@.map_values(|l: Vec<String>| text::texts(l@));
        let mut r: JiraSource = JiraSource::new(config);
        let mut i: usize = 0;
        proof {
            assert(r.seen() =~= taken_over(queues, lists, 0));
        }
        while i < kept.len()
            invariant
                r.configured() == config,
                queues == queue_views(config.queues@),
                lists == kept@.map_values(|l: Vec<String>| text::texts(l@)),
                kept.len() == config.queues.len(),
                i <= kept.len(),
                r.seen() == taken_over(queues, lists, i as nat),
            decreases kept.len() - i,
        {
            let name: String = r.config().queues[i].name.clone();
            let ghost before = r.seen();
            proof {
                assert(queues[i as int].name == name@);
                assert(lists[i as int] == text::texts(kept@[i as int]@));
            }
            r.restore(name.as_str(), &kept[i]);
            proof {
                assert(r.seen() =~= now_seen(before, name@, lists[i as int].to_set()));
            }
            i = i + 1;
        }
        r
    }

    /// What the source is configured with.
    pub fn config(&self) -> (r: &JiraSourceConfig)
        ensures
            *r == self.configured(),
    {
        &self.config
    }

    /// Take over the keys that an earlier run saw in a queue.
    pub fn restore(&mut self, queue_name: &str, keys: &Vec<String>)
        ensures
            final(self).configured() == old(self).configured(),
            forall|q: Seq<char>| #[trigger]
                (final(self).seen())(q) == now_seen(
                    old(self).seen(),
                    queue_name@,
                    text::texts(keys@).to_set(),
                )(q),
    {
        let keys: NameSet = crate::order::name_set(keys);
        self.set_seen(queue_name, keys);
    }

    /// The place of the last entry for a queue.
    fn state_of(&self, queue_name: &str) -> (r: Option<usize>)
        ensures
            match r {
                Some(i) => {
                    &&& i < self.states.len()
                    &&& self.states[i as int].name@ == queue_name@
                    &&& forall|k: int|
                        i < k < self.states.len() ==> (#[trigger] self.states[k]).name@
                            != queue_name@
                    &&& (self.seen())(queue_name@) == self.states[i as int].last_seen@
                },
                None => {
                    &&& forall|k: int|
                        0 <= k < self.states.len() ==> (#[trigger] self.states[k]).name@
                            != queue_name@
                    &&& (self.seen())(queue_name@) == Set::<Seq<char>>::empty()
                },
            },
    {
        let ghost all = self.states@;
        let mut i: usize = self.states.len();
        proof {
            assert(all.take(all.len() as int) =~= all);
        }
        while i > 0
            invariant
                all == self.states@,
                i <= self.states.len(),
                forall|k: int|
                    i <= k < self.states.len() ==> (#[trigger] self.states[k]).name@
                        != queue_name@,
                seen_in(all, queue_name@) == seen_in(all.take(i as int), queue_name@),
            decreases i,
        {
            proof {
                assert(all.take(i as int).last() == all[i - 1]);
                assert(all.take(i as int).drop_last() =~= all.take(i - 1));
            }
            if text::same(self.states[i - 1].name.as_str(), queue_name) {
                return Some(i - 1);
            }
            i = i - 1;
        }
        None
    }

    /// Note `keys` as what was last seen in a queue.
    fn set_seen(&mut self, queue_name: &str, keys: NameSet)
        ensures
            final(self).configured() == old(self).configured(),
            forall|q: Seq<char>| #[trigger]
                (final(self).seen())(q) == now_seen(old(self).seen(), queue_name@, keys@)(q),
    {
        let ghost states0 = self.states@;
        let state = QueueState { name: text::owned(queue_name), last_seen: keys };
        let ghost s = state;
        match self.state_of(queue_name) {
            Some(i) => {
                self.states.set(i, state);
                proof {
                    assert forall|q: Seq<char>| #[trigger] (self.seen())(q) == now_seen(
                        old(self).seen(),
                        queue_name@,
                        keys@,
                    )(q) by {
                        set_last(states0, i as int, s, q);
                    }
                }
            },
            None => {
                self.states.push(state);
                proof {
                    assert(self.states@.drop_last() =~= states0);
                }
            },
        }
    }

    /// The keys last seen in a queue, in order.
    pub fn last_seen(&self, queue_name: &str) -> (r: Vec<String>)
        ensures
            text::texts(r@) == in_order((self.seen())(queue_name@)),
            ordered_names(text::texts(r@), (self.seen())(queue_name@)),
    {
        match self.state_of(queue_name) {
            Some(i) => self.states[i].last_seen.to_list(),
            None => NameSet::new().to_list(),
        }
    }

    /// Take the tickets that match the filter of a queue now, and report what
    /// appeared and what left since the last time.
    pub fn diff_and_update(&mut self, queue_name: &str, issues: &Vec<JiraTicketPayload>) -> (r: Vec<
        PollOutcome,
    >)
        ensures
            final(self).configured() == old(self).configured(),
            outcome_views(r@) == changes(
                (old(self).seen())(queue_name@),
                payload_views(issues@),
            ),
            ({
                let before = (old(self).seen())(queue_name@);
                let keys = keys_of(payload_views(issues@));
                &&& ordered_names(in_order(keys.difference(before)), keys.difference(before))
                &&& ordered_names(in_order(before.difference(keys)), before.difference(keys))
            }),
            forall|q: Seq<char>| #[trigger]
                (final(self).seen())(q) == now_seen(
                    old(self).seen(),
                    queue_name@,
                    keys_of(payload_views(issues@)),
                )(q),
    {
        proof {
            self.seen_is_finite(queue_name@);
            changes_are_listed((self.seen())(queue_name@), payload_views(issues@));
        }
        let (out, keys) = match self.state_of(queue_name) {
            Some(i) => compare_polls(&self.states[i].last_seen, issues),
            None => compare_polls(&NameSet::new(), issues),
        };
        self.set_seen(queue_name, keys);
        out
    }

    /// Take what the search for each queue gave, in the order of the queues,
    /// and report all that came of it.
    pub fn poll_once(&mut self, results: &Vec<Result<Vec<JiraTicketPayload>, JiraError>>) -> (r:
        Vec<PollOutcome>)
        requires
            results.len() == old(self).configured().queues.len(),
        ensures
            final(self).configured() == old(self).configured(),
            ({
                let queues = queue_views(old(self).configured().queues@);
                let found = results@.map_values(
                    |x: Result<Vec<JiraTicketPayload>, JiraError>| search_view(x),
                );
                &&& outcome_views(r@) == all_reported(
                    old(self).seen(),
                    queues,
                    found,
                    queues.len(),
                )
                &&& final(self).seen() == all_seen_after(
                    old(self).seen(),
                    queues,
                    found,
                    queues.len(),
                )
            }),
    {
        let ghost seen0 = self.seen();
        let ghost queues = queue_views(self.config.queues@);
        let ghost found = results@.map_values(
            |x: Result<Vec<JiraTicketPayload>, JiraError>| search_view(x),
        );
        let mut out: Vec<PollOutcome> = Vec::new();
        let mut i: usize = 0;
        proof {
            assert(outcome_views(out@) =~= Seq::<PollOutcomeView>::empty());
        }
        while i < results.len()
            invariant
                self.config == old(self).configured(),
                results.len() == self.config.queues.len(),
                queues == queue_views(self.config.queues@),
                found == results@.map_values(
                    |x: Result<Vec<JiraTicketPayload>, JiraError>| search_view(x),
                ),
                i <= results.len(),
                outcome_views(out@) == all_reported(seen0, queues, found, i as nat),
                self.seen() == all_seen_after(seen0, queues, found, i as nat),
            decreases results.len() - i,
        {
            let name: String = self.config.queues[i].name.clone();
            let ghost before = self.seen();
            let ghost o = outcome_views(out@);
            proof {
                assert(queues[i as int].name == name@);
                assert(found[i as int] == search_view(results@[i as int]));
            }
            match &results[i] {
                Ok(issues) => {
                    let mut more: Vec<PollOutcome> = self.diff_and_update(name.as_str(), issues);
                    let ghost m = outcome_views(more@);
                    let ghost out0 = out@;
                    let ghost more0 = more@;
                    out.append(&mut more);
                    proof {
                        assert(outcome_views(out0 + more0) =~= o + m);
                        assert(self.seen() =~= now_seen(
                            before,
                            name@,
                            keys_of(payload_views(issues@)),
                        ));
                    }
                },
                Err(e) => {
                    let ghost out0 = out@;
                    out.push(PollOutcome::Error { queue: name, message: e.to_text() });
                    proof {
                        assert(outcome_views(out@) =~= outcome_views(out0).push(out@.last()@));
                        assert(outcome_views(out@) =~= o + reported(
                            before,
                            queues[i as int].name,
                            found[i as int],
                        ));
                    }
                },
            }
            i = i + 1;
        }
        out
    }
}

// ---------------------------------------------------------------------
// Slots
// ---------------------------------------------------------------------

/// What a [`ConcurrencyGate`] holds.
#[verifier::ext_equal]
pub ghost struct GateView {
    pub cap: usize,
    /// The keys of the tickets that hold a slot.
    pub active: Set<Seq<char>>,
    /// The tickets that wait for a slot, the first in front.
    pub queue: Seq<PayloadView>,
}

/// Whether a ticket with the key `key` waits.
pub open spec fn waits(queue: Seq<PayloadView>, key: Seq<char>) -> bool {
    exists|i: int| 0 <= i < queue.len() && #[trigger] queue[i].key == key
}

/// No more slots are taken than there are; a ticket waits only while all are
/// taken; no ticket waits twice, or waits while it has a slot.
pub open spec fn gate_ok(g: GateView) -> bool {
    &&& g.active.finite()
    &&& g.active.len() <= g.cap
    &&& g.queue.len() > 0 ==> g.active.len() == g.cap
    &&& forall|i: int| 0 <= i < g.queue.len() ==> !g.active.contains((#[trigger] g.queue[i]).key)
    &&& forall|i: int, j: int|
        0 <= i < j < g.queue.len() ==> (#[trigger] g.queue[i]).key != (#[trigger] g.queue[j]).key
}

/// All slots free.
pub open spec fn open_gate(cap: usize) -> GateView {
    GateView { cap, active: Set::empty(), queue: Seq::empty() }
}

/// The event for a ticket that gets a slot.
pub open spec fn appearance(p: PayloadView) -> JiraEventView {
    JiraEventView::TicketAppeared { key: p.key, payload: p }
}

/// The slots after the ticket `p` came.
pub open spec fn admitted(g: GateView, p: PayloadView) -> GateView {
    if g.active.contains(p.key) {
        g
    } else if g.active.len() < g.cap {
        GateView { active: g.active.insert(p.key), ..g }
    } else if waits(g.queue, p.key) {
        g
    } else {
        GateView { queue: g.queue.push(p), ..g }
    }
}

/// The event to forward when the ticket `p` comes.
pub open spec fn admission(g: GateView, p: PayloadView) -> Option<JiraEventView> {
    if !g.active.contains(p.key) && g.active.len() < g.cap {
        Some(appearance(p))
    } else {
        None
    }
}

/// The slots after that of `key` was given back: the first that waits gets
/// it.
pub open spec fn released(g: GateView, key: Seq<char>) -> GateView {
    if !g.active.contains(key) {
        g
    } else if g.queue.len() == 0 {
        GateView { active: g.active.remove(key), ..g }
    } else {
        GateView {
            active: g.active.remove(key).insert(g.queue[0].key),
            queue: g.queue.skip(1),
            ..g
        }
    }
}

/// The event to forward when the slot of `key` is given back.
pub open spec fn next_admission(g: GateView, key: Seq<char>) -> Option<JiraEventView> {
    if g.active.contains(key) && g.queue.len() > 0 {
        Some(appearance(g.queue[0]))
    } else {
        None
    }
}

/// The tickets of `queue` with another key than `key`.
pub open spec fn without_key(queue: Seq<PayloadView>, key: Seq<char>) -> Seq<PayloadView> {
    queue.filter(|p: PayloadView| p.key != key)
}

/// The slots without a ticket `key` among those that wait.
pub open spec fn unqueued(g: GateView, key: Seq<char>) -> GateView {
    GateView { queue: without_key(g.queue, key), ..g }
}

/// A ticket that comes leaves the slots in order.
pub proof fn admitted_keeps_gate_ok(g: GateView, p: PayloadView)
    requires
        gate_ok(g),
    ensures
        gate_ok(admitted(g, p)),
{
    let h = admitted(g, p);
    if g.active.contains(p.key) {
    } else if g.active.len() < g.cap {
        assert(g.queue.len() == 0);
    } else if !waits(g.queue, p.key) {
        assert forall|i: int| 0 <= i < h.queue.len() implies !h.active.contains(
            (#[trigger] h.queue[i]).key,
        ) by {
            if i < g.queue.len() {
                assert(h.queue[i] == g.queue[i]);
            }
        }
        assert forall|i: int, j: int| 0 <= i < j < h.queue.len() implies (#[trigger] h.queue[i]).key
            != (#[trigger] h.queue[j]).key by {
            assert(h.queue[i] == g.queue[i]);
            if j < g.queue.len() {
                assert(h.queue[j] == g.queue[j]);
            }
        }
    }
}

/// A slot that is given back leaves the slots in order.
pub proof fn released_keeps_gate_ok(g: GateView, key: Seq<char>)
    requires
        gate_ok(g),
    ensures
        gate_ok(released(g, key)),
{
    let h = released(g, key);
    if g.active.contains(key) && g.queue.len() > 0 {
        assert(!g.active.contains(g.queue[0].key));
        assert forall|i: int| 0 <= i < h.queue.len() implies !h.active.contains(
            (#[trigger] h.queue[i]).key,
        ) by {
            assert(h.queue[i] == g.queue[i + 1]);
            assert(g.queue[0].key != g.queue[i + 1].key);
        }
        assert forall|i: int, j: int| 0 <= i < j < h.queue.len() implies (#[trigger] h.queue[i]).key
            != (#[trigger] h.queue[j]).key by {
            assert(h.queue[i] == g.queue[i + 1]);
            assert(h.queue[j] == g.queue[j + 1]);
        }
    }
}

/// What a filtered queue holds, in terms of the whole queue.
proof fn filtered_queue(q: Seq<PayloadView>, key: Seq<char>)
    ensures
        forall|i: int|
            0 <= i < without_key(q, key).len() ==> (#[trigger] without_key(q, key)[i]).key != key
                && q.contains(without_key(q, key)[i]),
    decreases q.len(),
{
    reveal(Seq::filter);
    let r = without_key(q, key);
    if q.len() > 0 {
        filtered_queue(q.drop_last(), key);
        let shorter = without_key(q.drop_last(), key);
        assert forall|i: int| 0 <= i < r.len() implies (#[trigger] r[i]).key != key && q.contains(
            r[i],
        ) by {
            if i < shorter.len() {
                assert(r[i] == shorter[i]);
                let k = q.drop_last().index_of(shorter[i]);
                assert(q[k] == shorter[i]);
            } else {
                assert(q[q.len() - 1] == r[i]);
            }
        }
    }
}

/// A queue without doubles has none after it was filtered.
proof fn filtered_queue_distinct(q: Seq<PayloadView>, key: Seq<char>)
    requires
        forall|i: int, j: int|
            0 <= i < j < q.len() ==> (#[trigger] q[i]).key != (#[trigger] q[j]).key,
    ensures
        forall|i: int, j: int|
            0 <= i < j < without_key(q, key).len() ==> (#[trigger] without_key(q, key)[i]).key != (
            #[trigger] without_key(q, key)[j]).key,
    decreases q.len(),
{
    reveal(Seq::filter);
    let r = without_key(q, key);
    if q.len() > 0 {
        let d = q.drop_last();
        assert forall|i: int, j: int| 0 <= i < j < d.len() implies (#[trigger] d[i]).key != (
        #[trigger] d[j]).key by {
            assert(q[i].key != q[j].key);
        }
        filtered_queue_distinct(d, key);
        filtered_queue(d, key);
        let shorter = without_key(d, key);
        assert forall|i: int, j: int| 0 <= i < j < r.len() implies (#[trigger] r[i]).key != (
        #[trigger] r[j]).key by {
            assert(r[i] == shorter[i]);
            if j < shorter.len() {
                assert(r[j] == shorter[j]);
            } else {
                assert(r[j] == q.last());
                let k = d.index_of(shorter[i]);
                assert(q[k].key != q[q.len() - 1].key);
            }
        }
    }
}

/// Taking a ticket out of the queue leaves the slots in order.
pub proof fn unqueued_keeps_gate_ok(g: GateView, key: Seq<char>)
    requires
        gate_ok(g),
    ensures
        gate_ok(unqueued(g, key)),
        !waits(unqueued(g, key).queue, key),
{
    let h = unqueued(g, key);
    filtered_queue(g.queue, key);
    filtered_queue_distinct(g.queue, key);
    assert forall|i: int| 0 <= i < h.queue.len() implies !h.active.contains(
        (#[trigger] h.queue[i]).key,
    ) by {
        let k = g.queue.index_of(h.queue[i]);
        assert(!g.active.contains(g.queue[k].key));
    }
}

/// A ticket gets through once for each slot it takes: a ticket that
/// holds a slot or waits is not let through again.
pub proof fn no_double_admission(g: GateView, p: PayloadView)
    requires
        gate_ok(g),
    ensures
        admission(g, p) is Some ==> admission(admitted(g, p), p) is None,
        g.active.contains(p.key) || waits(g.queue, p.key) ==> admission(g, p) is None
            && admitted(g, p) == g,
{
}

/// Tickets that find no slot free get through in the order in which they
/// came: those that waited before keep their places.
pub proof fn gate_keeps_order(g: GateView, p: PayloadView, key: Seq<char>)
    requires
        gate_ok(g),
        g.queue.len() > 0,
        g.active.contains(key),
    ensures
        next_admission(admitted(g, p), key) == Some(appearance(g.queue[0])),
        released(g, key).queue == g.queue.skip(1),
        released(g, key).active.contains(g.queue[0].key),
{
}

/// Lets no more than a number of tickets be explored at once; the others wait
/// in the order in which they came.
#[derive(Debug)]
pub struct ConcurrencyGate {
    cap: usize,
    active: NameSet,
    queue: Vec<JiraTicketPayload>,
}

impl View for ConcurrencyGate {
    type V = GateView;

    closed spec fn view(&self) -> GateView {
        GateView { cap: self.cap, active: self.active@, queue: payload_views(self.queue@) }
    }
}

impl ConcurrencyGate {
    #[verifier::type_invariant]
    spec fn in_bounds(self) -> bool {
        gate_ok(self@)
    }

    /// A gate with `cap` slots, all free.
    pub fn new(cap: usize) -> (r: ConcurrencyGate)
        ensures
            r@ == open_gate(cap),
            gate_ok(r@),
    {
        let active = NameSet::new();
        let queue: Vec<JiraTicketPayload> = Vec::new();
        proof {
            assert(payload_views(queue@) =~= Seq::<PayloadView>::empty());
        }
        ConcurrencyGate { cap, active, queue }
    }

    /// How many slots there are.
    pub fn capacity(&self) -> (r: usize)
        ensures
            r == self@.cap,
            gate_ok(self@),
    {
        proof {
            use_type_invariant(self);
        }
        self.cap
    }

    /// How many slots are taken.
    pub fn active_count(&self) -> (r: usize)
        ensures
            r == self@.active.len(),
            gate_ok(self@),
    {
        proof {
            use_type_invariant(self);
        }
        self.active.len()
    }

    /// How many tickets wait.
    pub fn queued_count(&self) -> (r: usize)
        ensures
            r == self@.queue.len(),
            gate_ok(self@),
    {
        proof {
            use_type_invariant(self);
        }
        self.queue.len()
    }

    /// Whether a ticket with the key `key` waits.
    fn is_waiting(queue: &Vec<JiraTicketPayload>, key: &str) -> (r: bool)
        ensures
            r == waits(payload_views(queue@), key@),
    {
        let ghost q = payload_views(queue@);
        let mut i: usize = 0;
        while i < queue.len()
            invariant
                q == payload_views(queue@),
                i <= queue.len(),
                forall|k: int| 0 <= k < i ==> (#[trigger] q[k]).key != key@,
            decreases queue.len() - i,
        {
            proof {
                assert(q[i as int] == queue@[i as int]@);
            }
            if text::same(queue[i].key.as_str(), key) {
                proof {
                    assert(q[i as int].key == key@);
                }
                return true;
            }
            i = i + 1;
        }
        false
    }

    /// Let a ticket through if a slot is free, else let it wait. One that
    /// holds a slot or waits already changes nothing.
    pub fn admit_ticket(&mut self, payload: JiraTicketPayload) -> (r: Option<JiraEvent>)
        ensures
            final(self)@ == admitted(old(self)@, payload@),
            event_option(r) == admission(old(self)@, payload@),
            gate_ok(final(self)@),
    {
        proof {
            use_type_invariant(&*self);
            admitted_keeps_gate_ok(self@, payload@);
        }
        let ghost g = self@;
        if self.active.contains(payload.key.as_str()) {
            return None;
        }
        let mut active: NameSet = self.active.clone();
        if active.len() < self.cap {
            let key: String = payload.key.clone();
            active.insert(payload.key.clone());
            let mut gate = ConcurrencyGate { cap: self.cap, active, queue: Vec::new() };
            proof {
                assert(g.queue.len() == 0);
                assert(payload_views(self.queue@) =~= g.queue);
                assert(gate@ =~= admitted(g, payload@));
            }
            std::mem::swap(self, &mut gate);
            return Some(JiraEvent::TicketAppeared { key, payload });
        }
        if ConcurrencyGate::is_waiting(&self.queue, payload.key.as_str()) {
            return None;
        }
        let mut gate = ConcurrencyGate::new(self.cap);
        std::mem::swap(self, &mut gate);
        let ConcurrencyGate { cap, active, queue } = gate;
        let mut queue = queue;
        let ghost queue0 = queue@;
        queue.push(payload);
        proof {
            assert(payload_views(queue@) =~= payload_views(queue0).push(payload@));
        }
        *self = ConcurrencyGate { cap, active, queue };
        None
    }

    /// Give the slot of `key` back; the ticket that waits in front gets it.
    pub fn release(&mut self, key: &str) -> (r: Option<JiraEvent>)
        ensures
            final(self)@ == released(old(self)@, key@),
            event_option(r) == next_admission(old(self)@, key@),
            gate_ok(final(self)@),
    {
        proof {
            use_type_invariant(&*self);
            released_keeps_gate_ok(self@, key@);
        }
        let ghost g = self@;
        if !self.active.contains(key) {
            return None;
        }
        let mut gate = ConcurrencyGate::new(self.cap);
        std::mem::swap(self, &mut gate);
        let ConcurrencyGate { cap, active, queue } = gate;
        let mut active = active;
        let mut queue = queue;
        active.remove(key);
        if queue.len() == 0 {
            proof {
                assert(g.queue.len() == 0);
            }
            *self = ConcurrencyGate { cap, active, queue };
            return None;
        }
        let ghost queue0 = queue@;
        let next: JiraTicketPayload = queue.remove(0);
        active.insert(next.key.clone());
        proof {
            assert(payload_views(queue@) =~= payload_views(queue0).skip(1));
            assert(payload_views(queue0)[0] == next@);
        }
        *self = ConcurrencyGate { cap, active, queue };
        Some(JiraEvent::TicketAppeared { key: next.key.clone(), payload: next })
    }

    /// Take a ticket that waits out of the queue; `true` where there was one.
    pub fn drop_queued(&mut self, key: &str) -> (r: bool)
        ensures
            final(self)@ == unqueued(old(self)@, key@),
            r == waits(old(self)@.queue, key@),
            gate_ok(final(self)@),
    {
        proof {
            use_type_invariant(&*self);
            unqueued_keeps_gate_ok(self@, key@);
        }
        let ghost g = self@;
        let found: bool = ConcurrencyGate::is_waiting(&self.queue, key);
        let mut gate = ConcurrencyGate::new(self.cap);
        std::mem::swap(self, &mut gate);
        let ConcurrencyGate { cap, active, queue } = gate;
        let ghost all = payload_views(queue@);
        let mut kept: Vec<JiraTicketPayload> = Vec::new();
        let mut i: usize = 0;
        proof {
            reveal(Seq::filter);
            assert(payload_views(kept@) =~= without_key(all.take(0), key@));
        }
        while i < queue.len()
            invariant
                all == payload_views(queue@),
                i <= queue.len(),
                payload_views(kept@) == without_key(all.take(i as int), key@),
            decreases queue.len() - i,
        {
            let ghost kept0 = kept@;
            proof {
                reveal(Seq::filter);
                assert(all.take(i + 1).drop_last() =~= all.take(i as int));
                assert(all.take(i + 1).last() == queue@[i as int]@);
            }
            if !text::same(queue[i].key.as_str(), key) {
                kept.push(queue[i].clone());
                proof {
                    assert(payload_views(kept@) =~= payload_views(kept0).push(queue@[i as int]@));
                }
            }
            i = i + 1;
        }
        proof {
            assert(all.take(all.len() as int) =~= all);
        }
        *self = ConcurrencyGate { cap, active, queue: kept };
        found
    }
}

// ---------------------------------------------------------------------
// What a poll tells, and who gets a slot
// ---------------------------------------------------------------------

/// Some ticket has this key, and keys are not empty.
pub open spec fn is_listed(issues: Seq<PayloadView>, key: Seq<char>) -> bool {
    key.len() > 0 && exists|i: int| 0 <= i < issues.len() && (#[trigger] issues[i]).key == key
}

/// Ticket `i` is the last with its key.
pub open spec fn last_of_its_key(issues: Seq<PayloadView>, i: int) -> bool {
    0 <= i < issues.len() && forall|j: int|
        i < j < issues.len() ==> (#[trigger] issues[j]).key != issues[i].key
}

/// The ticket of a key is the last that has it.
proof fn ticket_is_last(issues: Seq<PayloadView>, key: Seq<char>)
    ensures
        match ticket(issues, key) {
            Some(p) => exists|i: int| #[trigger]
                last_of_its_key(issues, i) && issues[i] == p && p.key == key,
            None => forall|i: int| 0 <= i < issues.len() ==> (#[trigger] issues[i]).key != key,
        },
    decreases issues.len(),
{
    if issues.len() > 0 {
        let front = issues.drop_last();
        let n = issues.len() - 1;
        ticket_is_last(front, key);
        assert forall|i: int| 0 <= i < n implies issues[i] == #[trigger] front[i] by {}
        if issues.last().key == key {
            assert(last_of_its_key(issues, n));
        } else {
            match ticket(front, key) {
                Some(p) => {
                    let i = choose|i: int| #[trigger]
                        last_of_its_key(front, i) && front[i] == p && p.key == key;
                    assert forall|j: int| i < j < issues.len() implies (#[trigger] issues[j]).key
                        != issues[i].key by {
                        if j < n {
                            assert(front[j].key != front[i].key);
                        }
                    }
                    assert(last_of_its_key(issues, i));
                },
                None => {
                    assert forall|i: int| 0 <= i < issues.len() implies (#[trigger] issues[i]).key
                        != key by {
                        if i < n {
                            assert(front[i].key != key);
                        }
                    }
                },
            }
        }
    }
}

/// A poll tells of a ticket that it appeared exactly where it is found and was
/// not seen before, with what the search says of it, and that it left exactly
/// where it was seen and is not found any more. It tells nothing else.
pub proof fn polls_tell_what_changed(
    seen: Seen,
    queue: Seq<char>,
    issues: Seq<PayloadView>,
    e: JiraEventView,
)
    requires
        seen(queue).finite(),
    ensures
        ({
            let told = reported(seen, queue, SearchView::Found(issues));
            &&& told.contains(PollOutcomeView::Event(e)) <==> match e {
                JiraEventView::TicketAppeared { key, payload } => !seen(queue).contains(key)
                    && key.len() > 0 && exists|i: int| #[trigger]
                    last_of_its_key(issues, i) && issues[i].key == key && issues[i] == payload,
                JiraEventView::TicketLeftFilter { key } => seen(queue).contains(key) && !is_listed(
                    issues,
                    key,
                ),
            }
            &&& forall|k: int| 0 <= k < told.len() ==> (#[trigger] told[k]) is Event
        }),
{
    let before = seen(queue);
    let new_keys = in_order(keys_of(issues).difference(before));
    let gone = in_order(before.difference(keys_of(issues)));
    let a = appeared_events(issues, new_keys);
    let b = left_events(gone);
    let told = reported(seen, queue, SearchView::Found(issues));
    changes_are_listed(before, issues);
    assert(told == a + b);
    let o = PollOutcomeView::Event(e);
    assert(told.contains(o) <==> a.contains(o) || b.contains(o)) by {
        if a.contains(o) {
            let k = a.index_of(o);
            assert(told[k] == o);
        }
        if b.contains(o) {
            let k = b.index_of(o);
            assert(told[a.len() + k] == o);
        }
        if told.contains(o) {
            let k = told.index_of(o);
            if k < a.len() {
                assert(a[k] == o);
            } else {
                assert(b[k - a.len()] == o);
            }
        }
    }
    match e {
        JiraEventView::TicketAppeared { key, payload } => {
            ticket_is_last(issues, key);
            if b.contains(o) {
                let k = b.index_of(o);
                assert(b[k] == o);
            }
            if a.contains(o) {
                let k = a.index_of(o);
                assert(a[k] == o);
                assert(new_keys[k] == key);
                assert(new_keys.contains(key));
            }
            if !before.contains(key) && key.len() > 0 && exists|i: int| #[trigger]
                last_of_its_key(issues, i) && issues[i].key == key && issues[i] == payload {
                let i = choose|i: int| #[trigger]
                    last_of_its_key(issues, i) && issues[i].key == key && issues[i] == payload;
                assert(keys_of(issues).contains(key));
                assert(new_keys.contains(key));
                let k = new_keys.index_of(key);
                let j = choose|j: int| #[trigger]
                    last_of_its_key(issues, j) && issues[j] == ticket(issues, key)->0
                        && issues[j].key == key;
                assert(i == j) by {
                    if i < j {
                        assert(issues[j].key != issues[i].key);
                    }
                    if j < i {
                        assert(issues[i].key != issues[j].key);
                    }
                }
                assert(a[k] == o);
            }
        },
        JiraEventView::TicketLeftFilter { key } => {
            assert(keys_of(issues).contains(key) <==> is_listed(issues, key));
            if a.contains(o) {
                let k = a.index_of(o);
                assert(a[k] == o);
            }
            if b.contains(o) {
                let k = b.index_of(o);
                assert(b[k] == o);
                assert(gone[k] == key);
                assert(gone.contains(key));
            }
            if before.contains(key) && !is_listed(issues, key) {
                assert(gone.contains(key));
                let k = gone.index_of(key);
                assert(b[k] == o);
            }
        },
    }
    assert forall|k: int| 0 <= k < told.len() implies (#[trigger] told[k]) is Event by {
        if k < a.len() {
            assert(told[k] == a[k]);
        } else {
            assert(told[k] == b[k - a.len()]);
        }
    }
}

/// After a poll exactly the keys of the tickets that were found are seen; a
/// search that failed changes nothing of that and is told as one error, with
/// the queue and the reason.
pub proof fn polls_note_what_they_found(
    seen: Seen,
    queue: Seq<char>,
    issues: Seq<PayloadView>,
    e: JiraErrorView,
    other: Seq<char>,
    key: Seq<char>,
)
    ensures
        seen_after(seen, queue, SearchView::Found(issues))(queue).contains(key) <==> is_listed(
            issues,
            key,
        ),
        other != queue ==> seen_after(seen, queue, SearchView::Found(issues))(other) == seen(other),
        seen_after(seen, queue, SearchView::Failed(e))(other) == seen(other),
        ({
            let told = reported(seen, queue, SearchView::Failed(e));
            told.len() == 1 && told[0] == (PollOutcomeView::Error {
                queue,
                message: jira_error_text(e),
            })
        }),
{
}

/// Each queue is compared with what was seen of that queue and of no other, and
/// what the queues tell is told in their order.
pub proof fn queues_are_polled_in_turn(
    seen: Seen,
    queues: Seq<QueueConfigView>,
    results: Seq<SearchView>,
    n: nat,
    i: int,
)
    requires
        distinct_names(queues),
        0 <= i < n <= queues.len(),
        n <= results.len(),
    ensures
        all_seen_after(seen, queues, results, n)(queues[i].name) == seen_after(
            seen,
            queues[i].name,
            results[i],
        )(queues[i].name),
        all_reported(seen, queues, results, n) == all_reported(
            seen,
            queues,
            results,
            (n - 1) as nat,
        ) + reported(seen, queues[n - 1].name, results[n - 1]),
    decreases n,
{
    let m = (n - 1) as nat;
    let name = queues[m as int].name;
    unpolled_queue_is_as_before(seen, queues, results, m, m as int);
    if i < m {
        queues_are_polled_in_turn(seen, queues, results, m, i);
        assert(queues[i].name != queues[m as int].name);
    }
    let now = all_seen_after(seen, queues, results, m);
    assert(now(name) == seen(name));
}

/// What was seen of a queue whose turn has not come is as it was.
proof fn unpolled_queue_is_as_before(
    seen: Seen,
    queues: Seq<QueueConfigView>,
    results: Seq<SearchView>,
    n: nat,
    i: int,
)
    requires
        distinct_names(queues),
        n <= i < queues.len(),
    ensures
        all_seen_after(seen, queues, results, n)(queues[i].name) == seen(queues[i].name),
    decreases n,
{
    if n > 0 {
        unpolled_queue_is_as_before(seen, queues, results, (n - 1) as nat, i);
        assert(queues[n - 1].name != queues[i].name);
    }
}

/// The time between polls is as asked, but never under fifteen seconds.
pub proof fn polls_are_not_too_frequent(asked: Nanos)
    ensures
        longer(asked, MIN_POLL_INTERVAL) >= 15_000_000_000,
        asked >= 15_000_000_000 ==> longer(asked, MIN_POLL_INTERVAL) == asked,
        asked < 15_000_000_000 ==> longer(asked, MIN_POLL_INTERVAL) == 15_000_000_000,
{
}

/// A ticket that comes gets a slot, and goes on as itself, exactly where it has
/// none and one is free. Where all are taken it waits behind all others, once.
pub proof fn tickets_take_free_slots(g: GateView, p: PayloadView)
    ensures
        ({
            let h = admitted(g, p);
            let holds = g.active.contains(p.key);
            let room = g.active.len() < g.cap;
            let waiting = exists|i: int| 0 <= i < g.queue.len() && (#[trigger] g.queue[i]).key
                == p.key;
            &&& h.cap == g.cap
            &&& !holds && room ==> admission(g, p) == Some(
                JiraEventView::TicketAppeared { key: p.key, payload: p },
            )
            &&& holds || !room ==> admission(g, p) is None
            &&& forall|k: Seq<char>| #[trigger]
                h.active.contains(k) <==> g.active.contains(k) || (k == p.key && room)
            &&& !holds && !room && !waiting ==> h.queue == g.queue.push(p)
            &&& holds || room || waiting ==> h.queue == g.queue
        }),
{
}

/// A slot that is given back goes to the ticket that waits in front, which goes
/// on as itself; where none waits the slot is free. What has no slot gives none
/// back.
pub proof fn slots_pass_to_the_first(g: GateView, key: Seq<char>)
    ensures
        ({
            let h = released(g, key);
            &&& h.cap == g.cap
            &&& !g.active.contains(key) ==> h == g && next_admission(g, key) is None
            &&& g.active.contains(key) && g.queue.len() == 0 ==> next_admission(g, key) is None
                && h.queue.len() == 0 && forall|k: Seq<char>| #[trigger]
                h.active.contains(k) <==> g.active.contains(k) && k != key
            &&& g.active.contains(key) && g.queue.len() > 0 ==> {
                let first = g.queue[0];
                &&& next_admission(g, key) == Some(
                    JiraEventView::TicketAppeared { key: first.key, payload: first },
                )
                &&& h.queue.len() == g.queue.len() - 1
                &&& forall|i: int| 0 <= i < h.queue.len() ==> (#[trigger] h.queue[i]) == g.queue[i
                    + 1]
                &&& forall|k: Seq<char>| #[trigger]
                    h.active.contains(k) <==> k == first.key || (g.active.contains(k) && k != key)
            }
        }),
{
}

/// A ticket that is taken out of the queue waits no more; the others keep their
/// order, and nobody loses a slot.
pub proof fn dropped_tickets_wait_no_more(g: GateView, key: Seq<char>)
    ensures
        unqueued(g, key).queue == g.queue.filter(|p: PayloadView| p.key != key),
        unqueued(g, key).active == g.active,
        unqueued(g, key).cap == g.cap,
        waits(g.queue, key) <==> exists|i: int|
            0 <= i < g.queue.len() && (#[trigger] g.queue[i]).key == key,
{
}

} // verus!
