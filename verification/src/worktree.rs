//! Git worktrees: their names, and what git says about them.

use vstd::prelude::*;
use vstd::string::*;

use crate::paths::{join_path, joined_path};
use crate::text;

verus! {

// ---------------------------------------------------------------------
// Names
// ---------------------------------------------------------------------

/// A path without the slashes, and the components `.` behind one, at its end.
pub open spec fn bare_path(s: Seq<char>) -> Seq<char>
    decreases s.len(),
{
    if s.len() > 0 && s.last() == '/' {
        bare_path(s.drop_last())
    } else if s.len() > 1 && s.last() == '.' && s[s.len() - 2] == '/' {
        bare_path(s.drop_last())
    } else {
        s
    }
}

/// The part of a path behind its last slash.
pub open spec fn last_part(s: Seq<char>) -> Seq<char>
    decreases s.len(),
{
    if s.len() == 0 || s.last() == '/' {
        Seq::empty()
    } else {
        last_part(s.drop_last()).push(s.last())
    }
}

/// The last component of a path, if it names something.
pub open spec fn dir_name(path: Seq<char>) -> Option<Seq<char>> {
    let name = last_part(bare_path(path));
    if name.len() == 0 || name == "."@ || name == ".."@ {
        None
    } else {
        Some(name)
    }
}

/// The directory name of a repository; `repo` where its path has none.
pub open spec fn repo_name_of(root: Seq<char>) -> Seq<char> {
    match dir_name(root) {
        Some(n) => n,
        None => "repo"@,
    }
}

/// Where the part of `cs[..end]` behind its last slash begins.
fn part_start(cs: &Vec<char>, end: usize) -> (r: usize)
    requires
        end <= cs.len(),
    ensures
        r <= end,
        cs@.subrange(r as int, end as int) == last_part(cs@.take(end as int)),
        r > 0 ==> cs@[r - 1] == '/',
{
    let mut i: usize = end;
    let ghost whole = last_part(cs@.take(end as int));
    proof {
        assert(cs@.subrange(end as int, end as int) =~= Seq::<char>::empty());
        assert(last_part(cs@.take(end as int)) + Seq::<char>::empty() =~= whole);
    }
    while i > 0 && cs[i - 1] != '/'
        invariant
            i <= end <= cs.len(),
            whole == last_part(cs@.take(end as int)),
            last_part(cs@.take(i as int)) + cs@.subrange(i as int, end as int) == whole,
        decreases i,
    {
        proof {
            let t = cs@.take(i as int);
            assert(t.drop_last() =~= cs@.take(i - 1));
            assert(t.last() == cs@[i - 1]);
            assert(last_part(cs@.take(i - 1)).push(cs@[i - 1]) + cs@.subrange(i as int, end as int)
                =~= last_part(cs@.take(i - 1)) + cs@.subrange(i - 1, end as int));
        }
        i = i - 1;
    }
    proof {
        if i > 0 {
            assert(cs@.take(i as int).last() == '/');
        }
        assert(last_part(cs@.take(i as int)) =~= Seq::<char>::empty());
        assert(Seq::<char>::empty() + cs@.subrange(i as int, end as int) =~= cs@.subrange(
            i as int,
            end as int,
        ));
    }
    i
}

/// Where the slashes, and the components `.` behind one, at the end of `cs`
/// begin.
fn bare_end(cs: &Vec<char>) -> (r: usize)
    ensures
        r <= cs.len(),
        cs@.take(r as int) == bare_path(cs@),
{
    let mut end: usize = cs.len();
    proof {
        assert(cs@.take(cs@.len() as int) =~= cs@);
    }
    while end > 0 && (cs[end - 1] == '/' || (end > 1 && cs[end - 1] == '.' && cs[end - 2] == '/'))
        invariant
            end <= cs.len(),
            bare_path(cs@) == bare_path(cs@.take(end as int)),
        decreases end,
    {
        proof {
            assert(cs@.take(end as int).drop_last() =~= cs@.take(end - 1));
            assert(cs@.take(end as int).last() == cs@[end - 1]);
            if end > 1 {
                assert(cs@.take(end as int)[end - 2] == cs@[end - 2]);
            }
        }
        end = end - 1;
    }
    proof {
        let t = cs@.take(end as int);
        if end > 0 {
            assert(t.last() == cs@[end - 1]);
        }
        if end > 1 {
            assert(t[t.len() - 2] == cs@[end - 2]);
        }
    }
    end
}

/// The directory name of a repository.
pub fn repo_name(root: &str) -> (r: String)
    ensures
        r@ == repo_name_of(root@),
{
    let cs: Vec<char> = text::chars_of(root);
    let end: usize = bare_end(&cs);
    let start: usize = part_start(&cs, end);
    let name: String = text::string_of(&cs, start, end);
    if name.as_str().unicode_len() == 0 || text::same(name.as_str(), ".") || text::same(
        name.as_str(),
        "..",
    ) {
        text::owned("repo")
    } else {
        name
    }
}

/// The directory that holds the last component of a path; none where the path
/// has no component.
pub open spec fn parent_dir(path: Seq<char>) -> Option<Seq<char>> {
    let p = bare_path(path);
    if p.len() == 0 {
        None
    } else {
        let head = p.take(p.len() - last_part(p).len());
        if head.len() > 0 && bare_path(head).len() == 0 {
            Some("/"@)
        } else {
            Some(bare_path(head))
        }
    }
}

/// The part of a text behind its last slash is no longer than the text.
proof fn last_part_bound(s: Seq<char>)
    ensures
        last_part(s).len() <= s.len(),
    decreases s.len(),
{
    if s.len() > 0 && s.last() != '/' {
        last_part_bound(s.drop_last());
    }
}

/// The directory that holds the last component of a path.
pub fn parent_of(path: &str) -> (r: Option<String>)
    ensures
        text::text_option(r) == parent_dir(path@),
{
    let cs: Vec<char> = text::chars_of(path);
    let end: usize = bare_end(&cs);
    if end == 0 {
        proof {
            assert(cs@.take(0) =~= Seq::<char>::empty());
        }
        return None;
    }
    let start: usize = part_start(&cs, end);
    let head: String = text::string_of(&cs, 0, start);
    proof {
        let p = cs@.take(end as int);
        last_part_bound(p);
        assert(last_part(p).len() == end - start);
        assert(p.take(p.len() - last_part(p).len()) =~= cs@.subrange(0, start as int));
    }
    let hs: Vec<char> = text::chars_of(head.as_str());
    let cut: usize = bare_end(&hs);
    if start > 0 && cut == 0 {
        proof {
            assert(hs@.take(0) =~= Seq::<char>::empty());
        }
        return Some(text::owned("/"));
    }
    let parent: String = text::string_of(&hs, 0, cut);
    proof {
        assert(hs@.subrange(0, cut as int) =~= hs@.take(cut as int));
    }
    Some(parent)
}

/// A character that a worktree name can hold.
pub open spec fn name_char(c: char) -> bool {
    text::alphanumeric(c) || c == '.' || c == '_' || c == '-'
}

/// `s` with each run of other characters turned into one dash.
pub open spec fn dashed(s: Seq<char>) -> Seq<char>
    decreases s.len(),
{
    if s.len() == 0 {
        Seq::empty()
    } else {
        let before = dashed(s.drop_last());
        if name_char(s.last()) {
            before.push(s.last())
        } else if s.len() > 1 && !name_char(s[s.len() - 2]) {
            before
        } else {
            before.push('-')
        }
    }
}

/// `s` without the dashes at its front.
pub open spec fn without_front_dashes(s: Seq<char>) -> Seq<char>
    decreases s.len(),
{
    if s.len() > 0 && s[0] == '-' {
        without_front_dashes(s.skip(1))
    } else {
        s
    }
}

/// `s` without the dashes at its end.
pub open spec fn without_end_dashes(s: Seq<char>) -> Seq<char>
    decreases s.len(),
{
    if s.len() > 0 && s.last() == '-' {
        without_end_dashes(s.drop_last())
    } else {
        s
    }
}

/// `s` as the end of a directory name.
pub open spec fn safe_suffix(s: Seq<char>) -> Seq<char> {
    let t = without_end_dashes(without_front_dashes(dashed(s)));
    if t.len() == 0 {
        "wt"@
    } else {
        t
    }
}

/// `s` as the end of a directory name: letters, digits, dots, underscores and
/// dashes stay, each run of anything else becomes a dash, and there are no
/// dashes at the ends.
pub fn sanitize_worktree_suffix(s: &str) -> (r: String)
    ensures
        r@ == safe_suffix(s@),
{
    let cs: Vec<char> = text::chars_of(s);
    let mut out: Vec<char> = Vec::new();
    let mut last_dash: bool = false;
    let mut i: usize = 0;
    while i < cs.len()
        invariant
            i <= cs.len(),
            cs@ == s@,
            out@ == dashed(s@.take(i as int)),
            last_dash == (i > 0 && !name_char(s@[i - 1])),
        decreases cs.len() - i,
    {
        let c: char = cs[i];
        proof {
            let t = s@.take(i + 1);
            assert(t.drop_last() =~= s@.take(i as int));
            assert(t.last() == c);
            if i > 0 {
                assert(t[t.len() - 2] == s@[i - 1]);
            }
        }
        if text::is_alphanumeric(c) || c == '.' || c == '_' || c == '-' {
            out.push(c);
            last_dash = false;
        } else {
            if !last_dash {
                out.push('-');
            }
            last_dash = true;
        }
        i = i + 1;
    }
    proof {
        assert(s@.take(s@.len() as int) =~= s@);
    }
    let mut from: usize = 0;
    proof {
        assert(out@.skip(0) =~= out@);
    }
    while from < out.len() && out[from] == '-'
        invariant
            from <= out.len(),
            without_front_dashes(out@) == without_front_dashes(out@.skip(from as int)),
        decreases out.len() - from,
    {
        proof {
            assert(out@.skip(from as int)[0] == '-');
            assert(out@.skip(from as int).skip(1) =~= out@.skip(from + 1));
        }
        from = from + 1;
    }
    let ghost rest = out@.skip(from as int);
    let mut to: usize = out.len();
    proof {
        if from < out.len() {
            assert(rest[0] == out@[from as int]);
        }
        assert(without_front_dashes(out@) == rest);
        assert(out@.subrange(from as int, to as int) =~= rest);
    }
    while to > from && out[to - 1] == '-'
        invariant
            from <= to <= out.len(),
            without_end_dashes(rest) == without_end_dashes(out@.subrange(from as int, to as int)),
        decreases to,
    {
        proof {
            let u = out@.subrange(from as int, to as int);
            assert(u.last() == '-');
            assert(u.drop_last() =~= out@.subrange(from as int, to - 1));
        }
        to = to - 1;
    }
    proof {
        let u = out@.subrange(from as int, to as int);
        if to > from {
            assert(u.last() == out@[to - 1]);
        }
        assert(without_end_dashes(u) == u);
    }
    if from == to {
        return text::owned("wt");
    }
    text::string_of(&out, from, to)
}

/// Dashes for other characters leave only characters of a name.
proof fn dashed_is_safe(s: Seq<char>)
    ensures
        forall|i: int| 0 <= i < dashed(s).len() ==> name_char(#[trigger] dashed(s)[i]),
    decreases s.len(),
{
    if s.len() > 0 {
        let before = dashed(s.drop_last());
        dashed_is_safe(s.drop_last());
        assert forall|i: int| 0 <= i < dashed(s).len() implies name_char(
            #[trigger] dashed(s)[i],
        ) by {
            if i < before.len() {
                assert(dashed(s)[i] == before[i]);
                assert(name_char(before[i]));
            }
        }
    }
}

/// Cutting dashes at the front leaves characters that were there.
proof fn front_is_part(s: Seq<char>)
    ensures
        forall|i: int|
            0 <= i < without_front_dashes(s).len() ==> s.contains(
                #[trigger] without_front_dashes(s)[i],
            ),
    decreases s.len(),
{
    if s.len() > 0 && s[0] == '-' {
        front_is_part(s.skip(1));
        assert forall|i: int| 0 <= i < without_front_dashes(s).len() implies s.contains(
            #[trigger] without_front_dashes(s)[i],
        ) by {
            let x = without_front_dashes(s.skip(1))[i];
            let k = s.skip(1).index_of(x);
            assert(s[k + 1] == x);
        }
    }
}

/// Cutting dashes at the end leaves characters that were there.
proof fn end_is_part(s: Seq<char>)
    ensures
        forall|i: int|
            0 <= i < without_end_dashes(s).len() ==> s.contains(
                #[trigger] without_end_dashes(s)[i],
            ),
    decreases s.len(),
{
    if s.len() > 0 && s.last() == '-' {
        end_is_part(s.drop_last());
        assert forall|i: int| 0 <= i < without_end_dashes(s).len() implies s.contains(
            #[trigger] without_end_dashes(s)[i],
        ) by {
            let x = without_end_dashes(s.drop_last())[i];
            let k = s.drop_last().index_of(x);
            assert(s[k] == x);
        }
    }
}

/// The end of a worktree name is never empty, and holds only letters, digits,
/// dots, underscores and dashes, so that it is no path.
pub proof fn suffix_is_safe(s: Seq<char>)
    ensures
        safe_suffix(s).len() > 0,
        forall|i: int| 0 <= i < safe_suffix(s).len() ==> name_char(#[trigger] safe_suffix(s)[i]),
{
    reveal_strlit("wt");
    let d = dashed(s);
    let f = without_front_dashes(d);
    let t = without_end_dashes(f);
    dashed_is_safe(s);
    front_is_part(d);
    end_is_part(f);
    assert forall|i: int| 0 <= i < t.len() implies name_char(#[trigger] t[i]) by {
        let k = f.index_of(t[i]);
        let j = d.index_of(f[k]);
        assert(name_char(d[j]));
    }
}

// ---------------------------------------------------------------------
// Worktrees
// ---------------------------------------------------------------------

/// The message where a repository lies in no directory.
pub const NO_PARENT: &'static str = "Cannot determine parent directory of repo root";

/// Where the worktree of a repository with the given suffix is.
pub open spec fn worktree_place(root: Seq<char>, suffix: Seq<char>) -> Option<Seq<char>> {
    match parent_dir(root) {
        Some(parent) => Some(
            joined_path(parent, repo_name_of(root) + "-wt-"@ + safe_suffix(suffix)),
        ),
        None => None,
    }
}

/// Where the worktree of a repository with the given suffix is: beside the
/// repository.
pub fn worktree_path(repo_root: &str, suffix: &str) -> (r: Result<String, String>)
    ensures
        match worktree_place(repo_root@, suffix@) {
            Some(p) => r matches Ok(x) && x@ == p,
            None => r matches Err(e) && e@ == NO_PARENT@,
        },
{
    let name: String = repo_name(repo_root);
    let safe: String = sanitize_worktree_suffix(suffix);
    let dir: String = text::cat3(name.as_str(), "-wt-", safe.as_str());
    match parent_of(repo_root) {
        Some(parent) => Ok(join_path(parent.as_str(), dir.as_str())),
        None => Err(text::owned(NO_PARENT)),
    }
}

/// Where the worktree of a prompt is.
pub fn prompt_worktree_path(repo_root: &str, prompt_id: usize) -> (r: Result<String, String>)
    ensures
        match worktree_place(repo_root@, text::decimal(prompt_id as nat)) {
            Some(p) => r matches Ok(x) && x@ == p,
            None => r matches Err(e) && e@ == NO_PARENT@,
        },
{
    let id: String = text::number(prompt_id as u128);
    worktree_path(repo_root, id.as_str())
}

/// What to do so that there is a worktree.
#[derive(Debug, PartialEq)]
pub enum WorktreeStep {
    /// Nothing: git knows the worktree at `path`.
    Reuse { path: String },
    /// Have git add a worktree at `path`.
    Add { path: String },
}

/// The step for a worktree with the given suffix, where `known` says whether
/// git knows it already.
pub open spec fn step_for(
    r: Result<WorktreeStep, String>,
    root: Seq<char>,
    suffix: Seq<char>,
    known: bool,
) -> bool {
    match worktree_place(root, suffix) {
        None => r matches Err(e) && e@ == NO_PARENT@,
        Some(p) => if known {
            r matches Ok(WorktreeStep::Reuse { path }) && path@ == p
        } else {
            r matches Ok(WorktreeStep::Add { path }) && path@ == p
        },
    }
}

/// What to do so that a repository has a worktree with the given suffix: one
/// that git knows is used again.
pub fn create_worktree_named(repo_root: &str, suffix: &str, known: bool) -> (r: Result<
    WorktreeStep,
    String,
>)
    ensures
        step_for(r, repo_root@, suffix@, known),
{
    match worktree_path(repo_root, suffix) {
        Err(e) => Err(e),
        Ok(path) => if known {
            Ok(WorktreeStep::Reuse { path })
        } else {
            Ok(WorktreeStep::Add { path })
        },
    }
}

/// What to do so that a repository has a worktree for a prompt.
pub fn create_worktree(repo_root: &str, prompt_id: usize, known: bool) -> (r: Result<
    WorktreeStep,
    String,
>)
    ensures
        step_for(r, repo_root@, text::decimal(prompt_id as nat), known),
{
    let id: String = text::number(prompt_id as u128);
    create_worktree_named(repo_root, id.as_str(), known)
}

/// What the lines that git lists its worktrees with begin with.
pub const WORKTREE_LINE: &'static str = "worktree ";

/// The worktrees in what git lists.
pub open spec fn listed(lines: Seq<Seq<char>>) -> Seq<Seq<char>>
    decreases lines.len(),
{
    if lines.len() == 0 {
        Seq::empty()
    } else {
        let before = listed(lines.drop_last());
        if text::begins(lines.last(), WORKTREE_LINE@) {
            before.push(lines.last().skip(WORKTREE_LINE@.len() as int))
        } else {
            before
        }
    }
}

/// The worktrees in what `git worktree list --porcelain` prints.
pub fn listed_worktrees(output: &str) -> (r: Vec<String>)
    ensures
        text::texts(r@) == listed(text::lines_of(output@)),
{
    let lines: Vec<&str> = text::lines(output);
    let ghost all = text::lines_of(output@);
    let mut out: Vec<String> = Vec::new();
    let mut i: usize = 0;
    proof {
        assert(text::texts(out@) =~= listed(all.take(0)));
    }
    while i < lines.len()
        invariant
            i <= lines.len(),
            all == text::lines_of(output@),
            text::slices(lines@) == all,
            text::texts(out@) == listed(all.take(i as int)),
        decreases lines.len() - i,
    {
        let ghost o = out@;
        proof {
            assert(all.take(i + 1).drop_last() =~= all.take(i as int));
            assert(text::slices(lines@)[i as int] == lines@[i as int]@);
        }
        if text::starts_with(lines[i], WORKTREE_LINE) {
            let cs: Vec<char> = text::chars_of(lines[i]);
            let n: usize = WORKTREE_LINE.unicode_len();
            let path: String = text::string_of(&cs, n, cs.len());
            out.push(path);
            proof {
                assert(path@ =~= all[i as int].skip(n as int));
                assert(text::texts(out@) =~= text::texts(o).push(path@));
            }
        }
        i = i + 1;
    }
    proof {
        assert(all.take(all.len() as int) =~= all);
    }
    out
}

/// A worktree that git lists, with its canonical path where it has one.
#[derive(Debug, PartialEq)]
pub struct ListedWorktree {
    pub path: String,
    pub canonical: Option<String>,
}

/// Whether a listed worktree is the one at `path`.
pub open spec fn is_worktree(
    w: ListedWorktree,
    path: Seq<char>,
    canonical: Option<Seq<char>>,
) -> bool {
    w.path@ == path || (canonical is Some && text::text_option(w.canonical) == canonical)
}

/// The directory at `path` is among the worktrees that git lists: by its path,
/// or by its canonical path.
pub open spec fn known_worktree(
    is_dir: bool,
    worktrees: Seq<ListedWorktree>,
    path: Seq<char>,
    canonical: Option<Seq<char>>,
) -> bool {
    is_dir && exists|i: int|
        0 <= i < worktrees.len() && is_worktree(#[trigger] worktrees[i], path, canonical)
}

/// Whether the directory at `path` is among the worktrees that git lists: by
/// its path, or by its canonical path.
pub fn worktree_exists(
    is_dir: bool,
    worktrees: &Vec<ListedWorktree>,
    path: &str,
    canonical: &Option<String>,
) -> (r: bool)
    ensures
        r == known_worktree(is_dir, worktrees@, path@, text::text_option(*canonical)),
{
    if !is_dir {
        return false;
    }
    let mut i: usize = 0;
    while i < worktrees.len()
        invariant
            is_dir,
            i <= worktrees.len(),
            forall|k: int|
                0 <= k < i ==> !is_worktree(
                    #[trigger] worktrees@[k],
                    path@,
                    text::text_option(*canonical),
                ),
        decreases worktrees.len() - i,
    {
        let w: &ListedWorktree = &worktrees[i];
        let by_canonical: bool = match (&w.canonical, canonical) {
            (Some(a), Some(b)) => text::same(a.as_str(), b.as_str()),
            _ => false,
        };
        if by_canonical || text::same(w.path.as_str(), path) {
            proof {
                assert(is_worktree(worktrees@[i as int], path@, text::text_option(*canonical)));
            }
            return true;
        }
        i = i + 1;
    }
    false
}

/// How a run of git went.
#[derive(Debug, PartialEq)]
pub enum GitRun {
    Success,
    /// It failed and wrote this.
    Failed { stderr: String },
    /// It did not start.
    NotStarted { error: String },
}

/// What comes of adding a worktree at `path`: the path, or the message.
pub open spec fn added(path: Seq<char>, run: GitRun) -> Result<Seq<char>, Seq<char>> {
    match run {
        GitRun::Success => Ok(path),
        GitRun::Failed { stderr } => Err("git worktree add failed: "@ + stderr@),
        GitRun::NotStarted { error } => Err("Failed to run git worktree add: "@ + error@),
    }
}

/// What comes of creating a worktree, where `run` is how git went if it was
/// run: the path, or the message.
pub open spec fn created(
    root: Seq<char>,
    suffix: Seq<char>,
    known: bool,
    run: GitRun,
) -> Result<Seq<char>, Seq<char>> {
    match worktree_place(root, suffix) {
        None => Err(NO_PARENT@),
        Some(p) => if known {
            Ok(p)
        } else {
            added(p, run)
        },
    }
}

/// A number as the end of a directory name stays as it is.
proof fn number_is_safe(n: nat)
    ensures
        safe_suffix(text::decimal(n)) == text::decimal(n),
{
    let s = text::decimal(n);
    text::decimal_is_digits(n);
    assert forall|i: int| 0 <= i < s.len() implies name_char(#[trigger] s[i]) by {
        assert(text::digit(s[i]));
    }
    name_chars_are_kept(s);
    assert(text::digit(s[0]));
    assert(text::digit(s[s.len() - 1]));
}

/// The worktree of a prompt lies beside the repository, under the name of the
/// repository and the number of the prompt.
pub proof fn prompt_worktree_is_named_by_its_number(root: Seq<char>, id: nat)
    ensures
        worktree_place(root, text::decimal(id)) == (match parent_dir(root) {
            Some(parent) => Some(
                joined_path(parent, repo_name_of(root) + "-wt-"@ + text::decimal(id)),
            ),
            None => None,
        }),
{
    number_is_safe(id);
}

/// Two prompts never share a worktree.
pub proof fn prompts_share_no_worktree(root: Seq<char>, a: nat, b: nat)
    requires
        a != b,
        parent_dir(root) is Some,
    ensures
        worktree_place(root, text::decimal(a)) != worktree_place(root, text::decimal(b)),
{
    number_is_safe(a);
    number_is_safe(b);
    reveal_strlit("-wt-");
    let parent = parent_dir(root)->0;
    let front = repo_name_of(root) + "-wt-"@;
    let x = front + text::decimal(a);
    let y = front + text::decimal(b);
    if joined_path(parent, x) == joined_path(parent, y) {
        assert(x[0] == front[0] && y[0] == front[0]);
        let p = joined_path(parent, x);
        let q = joined_path(parent, y);
        assert(p.len() - x.len() == q.len() - y.len()) by {
            if x[0] == '/' {
                assert(p == x && q == y);
            } else if parent.len() == 0 || parent.last() == '/' {
                assert(p == parent + x && q == parent + y);
            } else {
                assert(p == parent.push('/') + x && q == parent.push('/') + y);
            }
        }
        assert(x.len() == y.len());
        assert(p.skip(p.len() - x.len()) =~= x);
        assert(q.skip(q.len() - y.len()) =~= y);
        assert(x.skip(front.len() as int) =~= text::decimal(a));
        assert(y.skip(front.len() as int) =~= text::decimal(b));
        text::decimal_is_injective(a, b);
    }
}

/// A second creation uses the first: once a worktree was created at a path,
/// and while the directory is there and git lists it, creating it again gives
/// the same path, however git would go.
pub proof fn second_creation_reuses(
    root: Seq<char>,
    suffix: Seq<char>,
    known: bool,
    run: GitRun,
    worktrees: Seq<ListedWorktree>,
    i: int,
    canonical: Option<Seq<char>>,
    path: Seq<char>,
    again: GitRun,
)
    requires
        created(root, suffix, known, run) == Ok::<Seq<char>, Seq<char>>(path),
        0 <= i < worktrees.len(),
        worktrees[i].path@ == path,
    ensures
        known_worktree(true, worktrees, path, canonical),
        created(root, suffix, known_worktree(true, worktrees, path, canonical), again) == Ok::<
            Seq<char>,
            Seq<char>,
        >(path),
{
    assert(is_worktree(worktrees[i], path, canonical));
}

/// What came of adding a worktree.
pub fn worktree_added(path: String, run: GitRun) -> (r: Result<String, String>)
    ensures
        match added(path@, run) {
            Ok(p) => r matches Ok(x) && x@ == p,
            Err(m) => r matches Err(e) && e@ == m,
        },
{
    match run {
        GitRun::Success => Ok(path),
        GitRun::Failed { stderr } => Err(
            text::cat2("git worktree add failed: ", stderr.as_str()),
        ),
        GitRun::NotStarted { error } => Err(
            text::cat2("Failed to run git worktree add: ", error.as_str()),
        ),
    }
}

/// What came of removing a worktree.
pub fn worktree_removed(run: GitRun) -> (r: Result<(), String>)
    ensures
        match run {
            GitRun::Success => r is Ok,
            GitRun::Failed { stderr } => r matches Err(e) && e@ == "git worktree remove failed: "@
                + stderr@,
            GitRun::NotStarted { error } => r matches Err(e) && e@
                == "Failed to run git worktree remove: "@ + error@,
        },
{
    match run {
        GitRun::Success => Ok(()),
        GitRun::Failed { stderr } => Err(
            text::cat2("git worktree remove failed: ", stderr.as_str()),
        ),
        GitRun::NotStarted { error } => Err(
            text::cat2("Failed to run git worktree remove: ", error.as_str()),
        ),
    }
}

/// The root of a repository in what `git rev-parse --show-toplevel` prints.
pub fn repo_root(success: bool, output: &str) -> (r: Option<String>)
    ensures
        text::text_option(r) == if success {
            text::kept_text(Some(output@))
        } else {
            None
        },
{
    if !success {
        return None;
    }
    let root: &str = text::trim(output);
    if root.unicode_len() == 0 {
        None
    } else {
        Some(text::owned(root))
    }
}

// ---------------------------------------------------------------------
// Where worktrees lie, and when they are made
// ---------------------------------------------------------------------

/// A name that a directory can have: not empty, without a slash, and none of
/// the two that stand for a directory itself and for its parent.
pub open spec fn plain_name(s: Seq<char>) -> bool {
    &&& s.len() > 0
    &&& forall|k: int| 0 <= k < s.len() ==> (#[trigger] s[k]) != '/'
    &&& s != "."@
    &&& s != ".."@
}

/// A path that does not end in a slash, or in a slash and a dot.
pub open spec fn ends_in_a_name(s: Seq<char>) -> bool {
    s.len() > 0 && s.last() != '/' && !(s.len() > 1 && s.last() == '.' && s[s.len() - 2] == '/')
}

/// The worktree of a repository lies beside it, in a directory whose name is
/// that of the repository, `-wt-`, and the suffix made safe; slashes at the end
/// of the repository's path make no difference.
pub proof fn worktrees_lie_beside_the_repository(
    parent: Seq<char>,
    name: Seq<char>,
    suffix: Seq<char>,
)
    requires
        ends_in_a_name(parent),
        plain_name(name),
    ensures
        ({
            let root = parent + seq!['/'] + name;
            let place = parent + seq!['/'] + name + "-wt-"@ + safe_suffix(suffix);
            &&& worktree_place(root, suffix) == Some(place)
            &&& worktree_place(root + seq!['/'], suffix) == Some(place)
        }),
{
    let root = parent + seq!['/'] + name;
    let slashed = root + seq!['/'];
    reveal_strlit(".");
    reveal_strlit("..");
    assert(root.last() == name.last());
    assert(name.last() == name[name.len() - 1]);
    if root.len() > 1 && root.last() == '.' && root[root.len() - 2] == '/' {
        if name.len() > 1 {
            assert(root[root.len() - 2] == name[name.len() - 2]);
        } else {
            assert(name =~= "."@);
        }
    }
    assert(bare_path(root) == root);
    assert(slashed.last() == '/');
    assert(slashed.drop_last() =~= root);
    assert(bare_path(slashed) == root);
    last_part_is_behind_the_slash(parent + seq!['/'], name);
    assert(last_part(root) == name);
    let head = root.take(root.len() - name.len());
    assert(head =~= parent + seq!['/']);
    assert(head.last() == '/');
    assert(head.drop_last() =~= parent);
    assert(bare_path(parent) == parent);
    assert(bare_path(head) == parent);
    assert(parent_dir(root) == Some(parent));
    assert(parent_dir(slashed) == Some(parent));
    assert(repo_name_of(root) == name);
    assert(repo_name_of(slashed) == name);
    let dir = name + "-wt-"@ + safe_suffix(suffix);
    assert(dir[0] == name[0]);
    assert(joined_path(parent, dir) =~= parent + seq!['/'] + name + "-wt-"@ + safe_suffix(suffix));
}

/// The part behind the last slash is what follows it.
proof fn last_part_is_behind_the_slash(front: Seq<char>, name: Seq<char>)
    requires
        front.len() > 0,
        front.last() == '/',
        forall|k: int| 0 <= k < name.len() ==> (#[trigger] name[k]) != '/',
    ensures
        last_part(front + name) == name,
    decreases name.len(),
{
    let s = front + name;
    if name.len() == 0 {
        assert(s =~= front);
        assert(last_part(s) =~= name);
    } else {
        let t = name.drop_last();
        assert forall|k: int| 0 <= k < t.len() implies (#[trigger] t[k]) != '/' by {
            assert(t[k] == name[k]);
        }
        last_part_is_behind_the_slash(front, t);
        assert(s.drop_last() =~= front + t);
        assert(s.last() == name[name.len() - 1]);
        assert(last_part(s) =~= name);
    }
}

/// A suffix of letters, digits, dots, underscores and dashes, without a dash at
/// either end, is kept as it is.
pub proof fn plain_suffixes_are_kept(s: Seq<char>)
    requires
        s.len() > 0,
        forall|k: int|
            0 <= k < s.len() ==> text::alphanumeric(#[trigger] s[k]) || s[k] == '.' || s[k] == '_'
                || s[k] == '-',
        s[0] != '-',
        s.last() != '-',
    ensures
        safe_suffix(s) == s,
{
    name_chars_are_kept(s);
}

/// Characters that a name may hold stay.
proof fn name_chars_are_kept(s: Seq<char>)
    requires
        forall|k: int| 0 <= k < s.len() ==> name_char(#[trigger] s[k]),
    ensures
        dashed(s) == s,
    decreases s.len(),
{
    if s.len() > 0 {
        let t = s.drop_last();
        assert forall|k: int| 0 <= k < t.len() implies name_char(#[trigger] t[k]) by {
            assert(t[k] == s[k]);
        }
        name_chars_are_kept(t);
        assert(name_char(s[s.len() - 1]));
        assert(t.push(s.last()) =~= s);
    } else {
        assert(dashed(s) =~= s);
    }
}

/// A run of other characters becomes one dash, however long it is.
pub proof fn runs_become_one_dash(a: Seq<char>, run: Seq<char>, b: Seq<char>)
    requires
        run.len() > 0,
        forall|k: int| 0 <= k < run.len() ==> !name_char(#[trigger] run[k]),
        a.len() > 0 ==> name_char(a.last()),
        b.len() > 0 ==> name_char(b[0]),
    ensures
        dashed(a + run + b) == dashed(a) + seq!['-'] + dashed(b),
    decreases run.len() + b.len(),
{
    let s = a + run + b;
    if b.len() > 0 {
        let t = b.drop_last();
        if t.len() > 0 {
            assert(t[0] == b[0]);
        }
        runs_become_one_dash(a, run, t);
        assert(s.drop_last() =~= a + run + t);
        assert(s.last() == b.last());
        if !name_char(b.last()) {
            assert(b.len() > 1);
            assert(s[s.len() - 2] == b[b.len() - 2]);
        }
        assert(dashed(s) =~= dashed(a) + seq!['-'] + dashed(b));
    } else {
        assert(dashed(b) =~= Seq::<char>::empty());
        let t = run.drop_last();
        assert(s.last() == run[run.len() - 1]);
        assert(s.drop_last() =~= a + t);
        if t.len() > 0 {
            assert forall|k: int| 0 <= k < t.len() implies !name_char(#[trigger] t[k]) by {
                assert(t[k] == run[k]);
            }
            runs_become_one_dash(a, t, b);
            assert(a + t + b =~= a + t);
            assert(s[s.len() - 2] == run[run.len() - 2]);
            assert(dashed(s) =~= dashed(a) + seq!['-'] + dashed(b));
        } else {
            assert(a + t =~= a);
            if a.len() > 0 {
                assert(s[s.len() - 2] == a.last());
            }
            assert(dashed(s) =~= dashed(a) + seq!['-'] + dashed(b));
        }
    }
}

/// A worktree that git knows is used as it is; any other is added, at the same
/// place. Only a repository without a parent has none.
pub proof fn known_worktrees_are_reused(
    r: Result<WorktreeStep, String>,
    root: Seq<char>,
    suffix: Seq<char>,
    known: bool,
)
    requires
        step_for(r, root, suffix, known),
    ensures
        r is Ok <==> parent_dir(root) is Some,
        r matches Ok(step) ==> {
            let path = match step {
                WorktreeStep::Reuse { path } => path,
                WorktreeStep::Add { path } => path,
            };
            &&& step is Reuse <==> known
            &&& worktree_place(root, suffix) == Some(path@)
        },
{
}

/// A worktree is there in the end exactly where it was known, or where git added
/// it; a failure tells what git said.
pub proof fn creation_ends_with_a_worktree(
    root: Seq<char>,
    suffix: Seq<char>,
    known: bool,
    run: GitRun,
)
    requires
        worktree_place(root, suffix) is Some,
    ensures
        created(root, suffix, known, run) is Ok <==> known || run == GitRun::Success,
        created(root, suffix, known, run) matches Ok(p) ==> Some(p) == worktree_place(root, suffix),
        !known && run is Failed ==> created(root, suffix, known, run) == Err::<Seq<char>, Seq<char>>(
            "git worktree add failed: "@ + run->stderr@,
        ),
{
}

/// A directory is a known worktree exactly where it is there and git lists its
/// path, or another path that leads to the same place.
pub proof fn worktrees_are_known_by_their_path(
    is_dir: bool,
    worktrees: Seq<ListedWorktree>,
    path: Seq<char>,
    canonical: Option<Seq<char>>,
)
    ensures
        known_worktree(is_dir, worktrees, path, canonical) <==> is_dir && exists|i: int|
            0 <= i < worktrees.len() && ((#[trigger] worktrees[i]).path@ == path || (
            canonical matches Some(c) && worktrees[i].canonical matches Some(d) && d@ == c)),
{
    if known_worktree(is_dir, worktrees, path, canonical) {
        let i = choose|i: int|
            0 <= i < worktrees.len() && is_worktree(#[trigger] worktrees[i], path, canonical);
        assert(worktrees[i].path@ == path || (canonical matches Some(c)
            && worktrees[i].canonical matches Some(d) && d@ == c));
    }
    if is_dir && exists|i: int|
        0 <= i < worktrees.len() && ((#[trigger] worktrees[i]).path@ == path || (
        canonical matches Some(c) && worktrees[i].canonical matches Some(d) && d@ == c)) {
        let i = choose|i: int|
            0 <= i < worktrees.len() && ((#[trigger] worktrees[i]).path@ == path || (
            canonical matches Some(c) && worktrees[i].canonical matches Some(d) && d@ == c));
        assert(is_worktree(worktrees[i], path, canonical));
    }
}

/// Of what git prints, each line that begins with `worktree ` names one, by the
/// rest of the line, and no other line does.
pub proof fn listed_lines_name_worktrees(lines: Seq<Seq<char>>, path: Seq<char>, other: Seq<char>)
    requires
        !text::begins(other, "worktree "@),
    ensures
        listed(lines.push("worktree "@ + path)) == listed(lines).push(path),
        listed(lines.push(other)) == listed(lines),
        listed(Seq::<Seq<char>>::empty()).len() == 0,
{
    let line = "worktree "@ + path;
    assert(lines.push(line).drop_last() =~= lines);
    assert(lines.push(other).drop_last() =~= lines);
    assert(line.subrange(0, "worktree "@.len() as int) =~= "worktree "@);
    assert(text::begins(line, WORKTREE_LINE@));
    assert(line.skip("worktree "@.len() as int) =~= path);
}

} // verus!
