//! Classify each `openspec/changes/<name>/` directory as either a draft or a
//! queued workflow.
//!
//! A change is *queued* where its directory holds a `.clhorde-ready` marker
//! that can be read. The marker is plain TOML; what it may say is a
//! [`MarkerMetadata`].

use vstd::prelude::*;
use vstd::string::*;

use crate::order::{in_name_order, sort_by_name, sorted_by_name, Named, sorted_by_name_sorts};
use crate::text;

verus! {

/// Filename of the queue marker, relative to a change directory.
pub const MARKER_FILENAME: &'static str = ".clhorde-ready";

/// Optional metadata carried inside `.clhorde-ready`.
#[derive(Debug, PartialEq)]
pub struct MarkerMetadata {
    /// Higher runs first when workers free up.
    pub priority: Option<i32>,
    /// Other change names that must be archived before this one starts.
    pub depends_on: Vec<String>,
    /// Branch name for the workflow's shared worktree.
    pub worktree_branch: Option<String>,
    /// Section ids the user marked safe to run in parallel.
    pub parallel_sections: Vec<String>,
    /// Override of the number of retries for this workflow's apply phase.
    pub max_section_retries: Option<u32>,
}

/// What a [`MarkerMetadata`] holds.
pub ghost struct MarkerMetadataView {
    pub priority: Option<i32>,
    pub depends_on: Seq<Seq<char>>,
    pub worktree_branch: Option<Seq<char>>,
    pub parallel_sections: Seq<Seq<char>>,
    pub max_section_retries: Option<u32>,
}

impl View for MarkerMetadata {
    type V = MarkerMetadataView;

    open spec fn view(&self) -> MarkerMetadataView {
        MarkerMetadataView {
            priority: self.priority,
            depends_on: text::texts(self.depends_on@),
            worktree_branch: text::text_option(self.worktree_branch),
            parallel_sections: text::texts(self.parallel_sections@),
            max_section_retries: self.max_section_retries,
        }
    }
}

/// What an empty marker says.
pub open spec fn no_metadata() -> MarkerMetadataView {
    MarkerMetadataView {
        priority: None,
        depends_on: Seq::empty(),
        worktree_branch: None,
        parallel_sections: Seq::empty(),
        max_section_retries: None,
    }
}

impl Default for MarkerMetadata {
    fn default() -> (r: Self)
        ensures
            r@ == no_metadata(),
    {
        let r = MarkerMetadata {
            priority: None,
            depends_on: Vec::new(),
            worktree_branch: None,
            parallel_sections: Vec::new(),
            max_section_retries: None,
        };
        proof {
            assert(r@.depends_on =~= Seq::<Seq<char>>::empty());
            assert(r@.parallel_sections =~= Seq::<Seq<char>>::empty());
        }
        r
    }
}

impl Clone for MarkerMetadata {
    fn clone(&self) -> (r: Self)
        ensures
            r@ == self@,
    {
        MarkerMetadata {
            priority: self.priority,
            depends_on: text::owned_list(&self.depends_on),
            worktree_branch: self.worktree_branch.clone(),
            parallel_sections: text::owned_list(&self.parallel_sections),
            max_section_retries: self.max_section_retries,
        }
    }
}

/// Whether `r` is what a marker says whose text is `body` and whose TOML was
/// read as `toml`.
pub open spec fn marker_read(
    r: Option<MarkerMetadata>,
    body: Seq<char>,
    toml: Option<MarkerMetadata>,
) -> bool {
    if text::trimmed(body).len() == 0 {
        r is Some && r->0@ == no_metadata()
    } else {
        r == toml
    }
}

impl MarkerMetadata {
    /// What a marker with the text `body` says: an empty one says nothing, and
    /// for any other it is what its TOML was read as, `None` where it is
    /// malformed.
    pub fn parse(body: &str, toml: Option<MarkerMetadata>) -> (r: Option<MarkerMetadata>)
        ensures
            marker_read(r, body@, toml),
    {
        if text::trim(body).is_empty() {
            Some(MarkerMetadata::default())
        } else {
            toml
        }
    }
}

/// On-disk classification of a single change directory.
#[derive(Debug, Clone, PartialEq)]
pub enum ChangeStatus {
    /// No marker that can be read.
    Drafted,
    /// A marker is present and says this.
    Queued(MarkerMetadata),
}

impl ChangeStatus {
    /// Whether the change is queued.
    pub fn is_queued(&self) -> (r: bool)
        ensures
            r == (self is Queued),
    {
        match self {
            ChangeStatus::Queued(_) => true,
            ChangeStatus::Drafted => false,
        }
    }
}

/// The status of a change whose marker says this, or which has none that can
/// be read.
pub open spec fn status_by(marker: Option<MarkerMetadata>) -> ChangeStatus {
    match marker {
        Some(m) => ChangeStatus::Queued(m),
        None => ChangeStatus::Drafted,
    }
}

/// The status of a change whose marker says this, or which has none that can
/// be read.
pub fn classify(marker: Option<MarkerMetadata>) -> (r: ChangeStatus)
    ensures
        r == status_by(marker),
{
    match marker {
        Some(m) => ChangeStatus::Queued(m),
        None => ChangeStatus::Drafted,
    }
}

/// A change directory.
#[derive(Debug, Clone, PartialEq)]
pub struct DiscoveredChange {
    /// Directory name under `openspec/changes/`.
    pub name: String,
    /// Path to the change directory.
    pub path: String,
    pub status: ChangeStatus,
}

impl Named for DiscoveredChange {
    open spec fn name_text(&self) -> Seq<char> {
        self.name@
    }

    fn name_str(&self) -> (r: &str) {
        self.name.as_str()
    }
}

/// What stands under `openspec/changes/`.
#[derive(Debug, PartialEq)]
pub struct ChangesEntry {
    pub is_dir: bool,
    pub change: DiscoveredChange,
}

/// Whether a name is one that the sweep passes over.
pub open spec fn hidden(name: Seq<char>) -> bool {
    name.len() > 0 && name[0] == '.'
}

/// The directories among the entries whose names do not begin with a dot.
pub open spec fn change_dirs(entries: Seq<ChangesEntry>) -> Seq<DiscoveredChange>
    decreases entries.len(),
{
    if entries.len() == 0 {
        Seq::empty()
    } else {
        let before = change_dirs(entries.drop_last());
        let e = entries.last();
        if e.is_dir && !hidden(e.change.name@) {
            before.push(e.change)
        } else {
            before
        }
    }
}

/// Whether `name` begins with a dot.
pub fn is_hidden(name: &str) -> (r: bool)
    ensures
        r == hidden(name@),
{
    name.unicode_len() > 0 && name.get_char(0) == '.'
}

/// The change directories among what stands under `openspec/changes/`, sorted
/// by name. Files and directories whose names begin with a dot are passed over.
pub fn scan(entries: Vec<ChangesEntry>) -> (r: Vec<DiscoveredChange>)
    ensures
        r@ == sorted_by_name(change_dirs(entries@)),
{
    let ghost all = entries@;
    let mut rest: Vec<ChangesEntry> = entries;
    let mut dirs: Vec<DiscoveredChange> = Vec::new();
    proof {
        assert(all.take(0) =~= Seq::<ChangesEntry>::empty());
        assert(all.skip(0) =~= all);
    }
    while rest.len() > 0
        invariant
            rest@.len() <= all.len(),
            rest@ == all.skip(all.len() - rest@.len()),
            dirs@ == change_dirs(all.take(all.len() - rest@.len())),
        decreases rest.len(),
    {
        let ghost n = all.len() - rest@.len();
        let e: ChangesEntry = rest.remove(0);
        proof {
            assert(all.take(n + 1).drop_last() =~= all.take(n));
            assert(all.take(n + 1).last() == e);
            assert(rest@ =~= all.skip(n + 1));
        }
        if e.is_dir && !is_hidden(e.change.name.as_str()) {
            dirs.push(e.change);
        }
    }
    proof {
        assert(all.take(all.len() as int) =~= all);
    }
    sort_by_name(dirs)
}

/// What a scan finds is in the order of names, holds every directory whose name
/// begins with no dot, and nothing else.
pub proof fn scan_finds_the_changes(entries: Seq<ChangesEntry>)
    ensures
        in_name_order(sorted_by_name(change_dirs(entries))),
        forall|c: DiscoveredChange|
            #![trigger sorted_by_name(change_dirs(entries)).contains(c)]
            sorted_by_name(change_dirs(entries)).contains(c) <==> exists|i: int|
                0 <= i < entries.len() && (#[trigger] entries[i]).is_dir && entries[i].change == c
                    && !hidden(c.name@),
{
    broadcast use vstd::seq_lib::group_to_multiset_ensures;

    let dirs = change_dirs(entries);
    let all = sorted_by_name(dirs);
    sorted_by_name_sorts(dirs);
    assert forall|c: DiscoveredChange| #![trigger all.contains(c)] all.contains(c) <==> exists|
        i: int,
    |
        0 <= i < entries.len() && (#[trigger] entries[i]).is_dir && entries[i].change == c
            && !hidden(c.name@) by {
        assert(all.contains(c) <==> all.to_multiset().count(c) > 0);
        assert(dirs.contains(c) <==> dirs.to_multiset().count(c) > 0);
        change_dirs_are_theirs(entries, c);
    }
}

/// The change directories are those among the entries.
proof fn change_dirs_are_theirs(entries: Seq<ChangesEntry>, c: DiscoveredChange)
    ensures
        change_dirs(entries).contains(c) <==> exists|i: int|
            0 <= i < entries.len() && (#[trigger] entries[i]).is_dir && entries[i].change == c
                && !hidden(c.name@),
    decreases entries.len(),
{
    if entries.len() > 0 {
        let front = entries.drop_last();
        let before = change_dirs(front);
        let after = change_dirs(entries);
        change_dirs_are_theirs(front, c);
        if after.contains(c) {
            let k = choose|k: int| 0 <= k < after.len() && after[k] == c;
            if k < before.len() {
                assert(before[k] == c);
                let i = choose|i: int|
                    0 <= i < front.len() && (#[trigger] front[i]).is_dir && front[i].change == c
                        && !hidden(c.name@);
                assert(entries[i] == front[i]);
            } else {
                assert(entries[entries.len() - 1].change == c);
            }
        }
        if exists|i: int|
            0 <= i < entries.len() && (#[trigger] entries[i]).is_dir && entries[i].change == c
                && !hidden(c.name@) {
            let i = choose|i: int|
                0 <= i < entries.len() && (#[trigger] entries[i]).is_dir && entries[i].change == c
                    && !hidden(c.name@);
            if i < front.len() {
                assert(front[i] == entries[i]);
                let k = choose|k: int| 0 <= k < before.len() && before[k] == c;
                assert(after[k] == c);
            } else {
                assert(after.last() == c);
            }
        }
    }
}

/// A change is queued exactly where its marker can be read, and then with what
/// the marker says. A marker that holds only white space can be read and says
/// nothing; any other says what its TOML says, and cannot be read where that
/// cannot.
pub proof fn markers_queue_changes(
    r: Option<MarkerMetadata>,
    body: Seq<char>,
    toml: Option<MarkerMetadata>,
)
    requires
        marker_read(r, body, toml),
    ensures
        ({
            let blank = forall|k: int| 0 <= k < body.len() ==> text::white(#[trigger] body[k]);
            &&& status_by(r) is Queued <==> blank || toml is Some
            &&& status_by(r) is Drafted <==> !blank && toml is None
            &&& blank ==> (status_by(r) matches ChangeStatus::Queued(m) && m.priority is None
                && m.depends_on@.len() == 0 && m.worktree_branch is None
                && m.parallel_sections@.len() == 0 && m.max_section_retries is None)
            &&& !blank && toml is Some ==> (status_by(r) matches ChangeStatus::Queued(m) && m
                == toml->0)
        }),
{
    let (a, b) = text::trimming_drops_white(body);
    if a < b {
        assert(!text::white(body[a]));
    } else {
        assert forall|k: int| 0 <= k < body.len() implies text::white(#[trigger] body[k]) by {}
        let m = r->0;
        assert(m@.depends_on.len() == m.depends_on@.len());
        assert(m@.parallel_sections.len() == m.parallel_sections@.len());
        assert(m@.worktree_branch is None);
    }
}

/// A scan lists exactly the directories whose names do not begin with a dot, in
/// the order of their names.
pub proof fn hidden_names_are_passed_over(entries: Seq<ChangesEntry>)
    ensures
        ({
            let found = sorted_by_name(change_dirs(entries));
            &&& forall|c: DiscoveredChange|
                #![trigger found.contains(c)]
                found.contains(c) <==> exists|i: int|
                    0 <= i < entries.len() && (#[trigger] entries[i]).is_dir && entries[i].change
                        == c && !(c.name@.len() > 0 && c.name@[0] == '.')
            &&& forall|i: int, j: int|
                0 <= i < j < found.len() ==> !crate::order::before(
                    (#[trigger] found[j]).name@,
                    (#[trigger] found[i]).name@,
                )
        }),
{
    scan_finds_the_changes(entries);
    let found = sorted_by_name(change_dirs(entries));
    assert forall|c: DiscoveredChange| #![trigger found.contains(c)] found.contains(c) <==> exists|
        i: int,
    |
        0 <= i < entries.len() && (#[trigger] entries[i]).is_dir && entries[i].change == c && !(
        c.name@.len() > 0 && c.name@[0] == '.') by {
        assert(hidden(c.name@) <==> c.name@.len() > 0 && c.name@[0] == '.');
        assert(found.contains(c) <==> exists|i: int|
            0 <= i < entries.len() && (#[trigger] entries[i]).is_dir && entries[i].change == c
                && !hidden(c.name@));
    }
    assert forall|i: int, j: int| 0 <= i < j < found.len() implies !crate::order::before(
        (#[trigger] found[j]).name@,
        (#[trigger] found[i]).name@,
    ) by {
        assert(found[i].name_text() == found[i].name@);
        assert(found[j].name_text() == found[j].name@);
    }
}

} // verus!
