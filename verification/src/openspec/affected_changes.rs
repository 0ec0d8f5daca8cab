//! Which changes a worker touched: what stood in the directories of the
//! changes before it ran, compared with what stands there after.

use std::collections::hash_map::DefaultHasher;
use std::hash::Hasher;

use vstd::prelude::*;
use vstd::std_specs::hash::DefaultHasherAdditionalSpecFns;
use vstd::string::*;

use super::discovery::{hidden, is_hidden};
use crate::order::{in_order, ordered_names, NameMap, NameSet};
use crate::text;

verus! {

/// The size of a file and a hash of what stands in it.
pub type FileFingerprint = (u64, u64);

/// What the fingerprint of a file with the given bytes is.
pub open spec fn file_fingerprint(bytes: Seq<u8>) -> FileFingerprint {
    (bytes.len() as u64, DefaultHasher::spec_finish(seq![bytes]))
}

/// The fingerprint of a file with the given bytes.
pub fn fingerprint_file(bytes: &Vec<u8>) -> (r: FileFingerprint)
    ensures
        r == file_fingerprint(bytes@),
{
    let mut hasher = DefaultHasher::new();
    hasher.write(bytes.as_slice());
    proof {
        assert(hasher@ =~= seq![bytes@]);
    }
    (bytes.len() as u64, hasher.finish())
}

/// What stands in the directory of one change: the fingerprints of its files
/// by their paths within it.
#[derive(Debug, PartialEq, Eq)]
pub struct ChangeFingerprint {
    pub files: NameMap<FileFingerprint>,
}

impl View for ChangeFingerprint {
    type V = Map<Seq<char>, FileFingerprint>;

    open spec fn view(&self) -> Map<Seq<char>, FileFingerprint> {
        self.files@
    }
}

/// Files read one after the other: where a path occurs twice, the later one
/// counts.
pub open spec fn files_of(files: Seq<(String, FileFingerprint)>) -> Map<Seq<char>, FileFingerprint>
    decreases files.len(),
{
    if files.len() == 0 {
        Map::empty()
    } else {
        files_of(files.drop_last()).insert(files.last().0@, files.last().1)
    }
}

impl ChangeFingerprint {
    /// The fingerprint of a change with the given files.
    pub fn of_files(files: Vec<(String, FileFingerprint)>) -> (r: ChangeFingerprint)
        ensures
            r@ == files_of(files@),
    {
        let mut out: NameMap<FileFingerprint> = NameMap::new();
        let mut i: usize = 0;
        while i < files.len()
            invariant
                i <= files.len(),
                out@ == files_of(files@.take(i as int)),
            decreases files.len() - i,
        {
            proof {
                assert(files@.take(i + 1).drop_last() =~= files@.take(i as int));
            }
            let (path, fingerprint) = &files[i];
            out.insert(path.clone(), *fingerprint);
            i = i + 1;
        }
        proof {
            assert(files@.take(files@.len() as int) =~= files@);
        }
        ChangeFingerprint { files: out }
    }

    /// Whether the same stands in both.
    pub fn same(&self, other: &ChangeFingerprint) -> (r: bool)
        ensures
            r == (self@ == other@),
    {
        let a: &Vec<String> = self.files.names();
        let b: &Vec<String> = other.files.names();
        let ghost x = text::texts(a@);
        let ghost y = text::texts(b@);
        proof {
            if self@ =~= other@ {
                crate::order::ordered_names_unique(x, y, self@.dom());
                assert(x.len() == a.len() && y.len() == b.len());
            }
        }
        if a.len() != b.len() {
            return false;
        }
        let mut i: usize = 0;
        while i < a.len()
            invariant
                i <= a.len(),
                a.len() == b.len(),
                x == text::texts(a@),
                y == text::texts(b@),
                ordered_names(x, self@.dom()),
                ordered_names(y, other@.dom()),
                self@ == other@ ==> x == y,
                forall|k: int| 0 <= k < i ==> #[trigger] x[k] == y[k] && self@[x[k]] == other@[x[k]],
            decreases a.len() - i,
        {
            let name: &str = a[i].as_str();
            proof {
                assert(x[i as int] == name@);
                assert(x.contains(x[i as int]));
                assert(y[i as int] == b@[i as int]@);
            }
            if !text::same(name, b[i].as_str()) {
                proof {
                    assert(x[i as int] != y[i as int]);
                }
                return false;
            }
            match (self.files.get(name), other.files.get(name)) {
                (Some(f), Some(g)) => {
                    proof {
                        assert(self@[name@] == *f);
                        assert(other@[name@] == *g);
                    }
                    if f.0 != g.0 || f.1 != g.1 {
                        return false;
                    }
                },
                _ => {
                    proof {
                        assert(y.contains(y[i as int]));
                        assert(false);
                    }
                    return false;
                },
            }
            i = i + 1;
        }
        proof {
            assert(x =~= y);
            assert(self@.dom() =~= other@.dom()) by {
                assert forall|n: Seq<char>| self@.dom().contains(n) <==> other@.dom().contains(n) by {
                    assert(x.contains(n) <==> y.contains(n));
                }
            }
            assert forall|n: Seq<char>| self@.dom().contains(n) implies self@[n] == other@[n] by {
                assert(x.contains(n));
                let k = x.index_of(n);
                assert(x[k] == n);
            }
            assert(self@ =~= other@);
        }
        true
    }
}

impl Default for ChangeFingerprint {
    fn default() -> (r: Self)
        ensures
            r@ == Map::<Seq<char>, FileFingerprint>::empty(),
    {
        ChangeFingerprint { files: NameMap::new() }
    }
}

impl Clone for ChangeFingerprint {
    fn clone(&self) -> (r: Self)
        ensures
            r@ == self@,
    {
        let mut out: NameMap<FileFingerprint> = NameMap::new();
        let names: &Vec<String> = self.files.names();
        let ghost l = text::texts(names@);
        let mut i: usize = 0;
        while i < names.len()
            invariant
                i <= names.len(),
                l == text::texts(names@),
                ordered_names(l, self@.dom()),
                forall|n: Seq<char>| #[trigger]
                    out@.dom().contains(n) <==> l.take(i as int).contains(n),
                forall|n: Seq<char>| #[trigger] out@.dom().contains(n) ==> out@[n] == self@[n],
            decreases names.len() - i,
        {
            let ghost before_step = out@;
            proof {
                assert(l[i as int] == names@[i as int]@);
                assert(l.contains(l[i as int]));
            }
            if let Some(f) = self.files.get(names[i].as_str()) {
                out.insert(names[i].clone(), *f);
            }
            proof {
                let t = l.take(i as int);
                let u = l.take(i + 1);
                assert forall|n: Seq<char>| #[trigger] out@.dom().contains(n) <==> u.contains(
                    n,
                ) by {
                    assert(before_step.dom().contains(n) <==> t.contains(n));
                    if t.contains(n) {
                        assert(u[t.index_of(n)] == n);
                    }
                    if u.contains(n) {
                        let k = u.index_of(n);
                        if k < i {
                            assert(t[k] == n);
                        }
                    }
                    assert(u[i as int] == l[i as int]);
                }
            }
            i = i + 1;
        }
        proof {
            assert(l.take(l.len() as int) =~= l);
            assert forall|n: Seq<char>| out@.dom().contains(n) <==> self@.dom().contains(n) by {
                assert(l.contains(n) <==> self@.dom().contains(n));
            }
            assert(out@ =~= self@);
        }
        ChangeFingerprint { files: out }
    }
}

/// What stands in the directories of all changes, by the names of the changes.
#[derive(Debug, PartialEq, Eq)]
pub struct ChangesSnapshot {
    pub entries: NameMap<ChangeFingerprint>,
}

/// What a snapshot says of the change `name`.
pub open spec fn snapshot_of(s: ChangesSnapshot, name: Seq<char>) -> Option<
    Map<Seq<char>, FileFingerprint>,
> {
    if s.entries@.dom().contains(name) {
        Some(s.entries@[name]@)
    } else {
        None
    }
}

impl Default for ChangesSnapshot {
    fn default() -> (r: Self)
        ensures
            r.entries@ == Map::<Seq<char>, ChangeFingerprint>::empty(),
    {
        ChangesSnapshot { entries: NameMap::new() }
    }
}

/// One entry of the directory of all changes.
#[derive(Debug, PartialEq)]
pub struct SnapshotEntry {
    pub name: String,
    pub is_dir: bool,
    pub fingerprint: ChangeFingerprint,
}

/// The changes among the entries: the directories whose names do not begin
/// with a dot.
pub open spec fn changes_among(entries: Seq<SnapshotEntry>, name: Seq<char>) -> Option<
    Map<Seq<char>, FileFingerprint>,
>
    decreases entries.len(),
{
    if entries.len() == 0 {
        None
    } else if entries.last().name@ == name && entries.last().is_dir && !hidden(name) {
        Some(entries.last().fingerprint@)
    } else {
        changes_among(entries.drop_last(), name)
    }
}

/// The snapshot of a directory with the given entries; there are none where
/// the directory is missing.
pub fn snapshot(entries: &Vec<SnapshotEntry>) -> (r: ChangesSnapshot)
    ensures
        forall|name: Seq<char>| #[trigger] snapshot_of(r, name) == changes_among(entries@, name),
{
    let mut out = ChangesSnapshot::default();
    let mut i: usize = 0;
    while i < entries.len()
        invariant
            i <= entries.len(),
            forall|name: Seq<char>| #[trigger]
                snapshot_of(out, name) == changes_among(entries@.take(i as int), name),
        decreases entries.len() - i,
    {
        let ghost before_step = out;
        let e: &SnapshotEntry = &entries[i];
        if e.is_dir && !is_hidden(e.name.as_str()) {
            out.entries.insert(e.name.clone(), e.fingerprint.clone());
        }
        proof {
            assert(entries@.take(i + 1).drop_last() =~= entries@.take(i as int));
            assert(entries@.take(i + 1).last() == *e);
            assert forall|name: Seq<char>| #[trigger] snapshot_of(out, name) == changes_among(
                entries@.take(i + 1),
                name,
            ) by {
                assert(snapshot_of(before_step, name) == changes_among(
                    entries@.take(i as int),
                    name,
                ));
            }
        }
        i = i + 1;
    }
    proof {
        assert(entries@.take(entries@.len() as int) =~= entries@);
    }
    out
}

/// The snapshot of a directory that may not be known.
pub fn snapshot_opt(entries: Option<Vec<SnapshotEntry>>) -> (r: ChangesSnapshot)
    ensures
        match entries {
            Some(es) => forall|name: Seq<char>| #[trigger]
                snapshot_of(r, name) == changes_among(es@, name),
            None => r.entries@ == Map::<Seq<char>, ChangeFingerprint>::empty(),
        },
{
    match entries {
        Some(es) => snapshot(&es),
        None => ChangesSnapshot::default(),
    }
}

/// The changes that came, went, or hold something else than before.
pub open spec fn affected(before: ChangesSnapshot, after: ChangesSnapshot) -> Set<Seq<char>> {
    Set::new(|name: Seq<char>| snapshot_of(before, name) != snapshot_of(after, name))
}

/// Whether a change came, went, or holds something else than before.
fn is_affected(before: &ChangesSnapshot, after: &ChangesSnapshot, name: &str) -> (r: bool)
    ensures
        r == affected(*before, *after).contains(name@),
{
    match (before.entries.get(name), after.entries.get(name)) {
        (Some(a), Some(b)) => !a.same(b),
        (None, None) => false,
        _ => true,
    }
}

/// Put the affected changes among `names` into `out`.
fn note_affected(
    names: &Vec<String>,
    before: &ChangesSnapshot,
    after: &ChangesSnapshot,
    out: &mut NameSet,
)
    ensures
        forall|x: Seq<char>| #[trigger]
            final(out)@.contains(x) <==> old(out)@.contains(x) || (text::texts(names@).contains(x)
                && affected(*before, *after).contains(x)),
{
    let ghost l = text::texts(names@);
    let mut i: usize = 0;
    while i < names.len()
        invariant
            i <= names.len(),
            l == text::texts(names@),
            forall|x: Seq<char>| #[trigger]
                out@.contains(x) <==> old(out)@.contains(x) || (l.take(i as int).contains(x)
                    && affected(*before, *after).contains(x)),
        decreases names.len() - i,
    {
        let ghost before_step = out@;
        if is_affected(before, after, names[i].as_str()) {
            out.insert(names[i].clone());
        }
        proof {
            let t = l.take(i as int);
            let u = l.take(i + 1);
            assert(l[i as int] == names@[i as int]@);
            assert forall|x: Seq<char>| #[trigger] out@.contains(x) <==> old(out)@.contains(x) || (
            u.contains(x) && affected(*before, *after).contains(x)) by {
                assert(before_step.contains(x) <==> old(out)@.contains(x) || (t.contains(x)
                    && affected(*before, *after).contains(x)));
                if t.contains(x) {
                    assert(u[t.index_of(x)] == x);
                }
                if u.contains(x) {
                    let k = u.index_of(x);
                    if k < i {
                        assert(t[k] == x);
                    }
                }
                assert(u[i as int] == l[i as int]);
            }
        }
        i = i + 1;
    }
    proof {
        assert(l.take(l.len() as int) =~= l);
    }
}

/// The changes that came, went, or hold something else than before, in the
/// order of their names.
pub fn diff(before: &ChangesSnapshot, after: &ChangesSnapshot) -> (r: Vec<String>)
    ensures
        text::texts(r@) == in_order(affected(*before, *after)),
        ordered_names(text::texts(r@), affected(*before, *after)),
{
    let mut out: NameSet = NameSet::new();
    let a: &Vec<String> = before.entries.names();
    let b: &Vec<String> = after.entries.names();
    note_affected(a, before, after, &mut out);
    note_affected(b, before, after, &mut out);
    proof {
        let all = affected(*before, *after);
        assert forall|x: Seq<char>| out@.contains(x) <==> all.contains(x) by {
            assert(text::texts(a@).contains(x) <==> before.entries@.dom().contains(x));
            assert(text::texts(b@).contains(x) <==> after.entries@.dom().contains(x));
        }
        assert(out@ =~= all);
    }
    out.to_list()
}

/// Where nothing changed nothing is affected, and it does not matter which of
/// two snapshots is the earlier one.
pub proof fn affected_is_symmetric(a: ChangesSnapshot, b: ChangesSnapshot)
    ensures
        affected(a, a) == Set::<Seq<char>>::empty(),
        affected(a, b) == affected(b, a),
{
    assert(affected(a, a) =~= Set::<Seq<char>>::empty());
    assert(affected(a, b) =~= affected(b, a));
}

/// One of two directories has a file at this path and the other has not, or its
/// size or hash is another.
pub open spec fn file_differs(
    a: Map<Seq<char>, FileFingerprint>,
    b: Map<Seq<char>, FileFingerprint>,
    path: Seq<char>,
) -> bool {
    a.contains_key(path) != b.contains_key(path) || (a.contains_key(path) && a[path] != b[path])
}

/// A change is affected exactly where it came or went, or where one of its
/// files came, went, or has another size or hash than before.
pub proof fn affected_changes_differ(
    before: ChangesSnapshot,
    after: ChangesSnapshot,
    name: Seq<char>,
)
    ensures
        ({
            let a = before.entries@;
            let b = after.entries@;
            affected(before, after).contains(name) <==> {
                ||| a.contains_key(name) != b.contains_key(name)
                ||| a.contains_key(name) && b.contains_key(name) && exists|path: Seq<char>|
                    #[trigger]
                    file_differs(a[name]@, b[name]@, path)
            }
        }),
{
    let a = before.entries@;
    let b = after.entries@;
    if a.contains_key(name) && b.contains_key(name) {
        let x = a[name]@;
        let y = b[name]@;
        if forall|path: Seq<char>| !#[trigger] file_differs(x, y, path) {
            assert forall|path: Seq<char>| #[trigger] x.dom().contains(path) == y.dom().contains(
                path,
            ) by {
                assert(!file_differs(x, y, path));
            }
            assert(x.dom() =~= y.dom());
            assert forall|path: Seq<char>| x.dom().contains(path) implies #[trigger] x[path]
                == y[path] by {
                assert(!file_differs(x, y, path));
            }
            assert(x =~= y);
        }
    }
}

/// Entry `i` is a directory of this name, which does not begin with a dot.
pub open spec fn stands_at(entries: Seq<SnapshotEntry>, name: Seq<char>, i: int) -> bool {
    &&& 0 <= i < entries.len()
    &&& entries[i].is_dir
    &&& entries[i].name@ == name
    &&& !(name.len() > 0 && name[0] == '.')
}

/// A snapshot holds what the last directory of a name holds, and nothing of
/// files and of names that begin with a dot.
pub proof fn snapshots_hold_the_changes(entries: Seq<SnapshotEntry>, name: Seq<char>)
    ensures
        match changes_among(entries, name) {
            Some(f) => exists|i: int| #[trigger]
                stands_at(entries, name, i) && f == entries[i].fingerprint@ && forall|j: int|
                    i < j ==> !#[trigger] stands_at(entries, name, j),
            None => forall|i: int| !#[trigger] stands_at(entries, name, i),
        },
    decreases entries.len(),
{
    if entries.len() > 0 {
        let front = entries.drop_last();
        let n = entries.len() - 1;
        snapshots_hold_the_changes(front, name);
        assert forall|i: int| i != n implies #[trigger] stands_at(entries, name, i) == stands_at(
            front,
            name,
            i,
        ) by {
            if 0 <= i < n {
                assert(front[i] == entries[i]);
            }
        }
        if stands_at(entries, name, n) {
            assert(changes_among(entries, name) == Some(entries[n].fingerprint@));
        } else if changes_among(front, name) is Some {
            let f = changes_among(front, name)->0;
            let i = choose|i: int| #[trigger]
                stands_at(front, name, i) && f == front[i].fingerprint@ && forall|j: int|
                    i < j ==> !#[trigger] stands_at(front, name, j);
            assert(stands_at(entries, name, i));
        }
    }
}

/// File `i` of a list is at this path.
pub open spec fn is_at(
    files: Seq<(String, FileFingerprint)>,
    path: Seq<char>,
    i: int,
) -> bool {
    0 <= i < files.len() && files[i].0@ == path
}

/// The fingerprint of a change holds the last fingerprint read for each path,
/// and no other path.
pub proof fn files_are_kept_by_path(files: Seq<(String, FileFingerprint)>, path: Seq<char>)
    ensures
        if files_of(files).contains_key(path) {
            exists|i: int| #[trigger]
                is_at(files, path, i) && files_of(files)[path] == files[i].1 && forall|j: int|
                    i < j ==> !#[trigger] is_at(files, path, j)
        } else {
            forall|i: int| !#[trigger] is_at(files, path, i)
        },
    decreases files.len(),
{
    if files.len() > 0 {
        let front = files.drop_last();
        let n = files.len() - 1;
        files_are_kept_by_path(front, path);
        assert forall|i: int| i != n implies #[trigger] is_at(files, path, i) == is_at(
            front,
            path,
            i,
        ) by {
            if 0 <= i < n {
                assert(front[i] == files[i]);
            }
        }
        if is_at(files, path, n) {
            assert(files_of(files)[path] == files[n].1);
        } else if files_of(front).contains_key(path) {
            let i = choose|i: int| #[trigger]
                is_at(front, path, i) && files_of(front)[path] == front[i].1 && forall|j: int|
                    i < j ==> !#[trigger] is_at(front, path, j);
            assert(is_at(files, path, i));
        }
    }
}

/// Files of different sizes have different fingerprints.
pub proof fn sizes_are_told_apart(a: Seq<u8>, b: Seq<u8>)
    requires
        a.len() <= u64::MAX,
        b.len() <= u64::MAX,
    ensures
        a.len() != b.len() ==> file_fingerprint(a) != file_fingerprint(b),
        file_fingerprint(a).0 == a.len(),
{
}

} // verus!
