//! Inter-workflow dependency evaluator.
//!
//! A queued workflow may start only when every workflow that it depends on is
//! archived. Until then it is held; where a dependency can never be archived,
//! or the dependencies lead back to the workflow itself, it fails.
//!
//! Only cycles through the workflow being evaluated count here. A cycle
//! elsewhere leaves it pending, and is found when its own members are
//! evaluated.

use vstd::prelude::*;
use vstd::string::*;

use super::workflow::{workflow_views, StatusView, Workflow, WorkflowStatus, WorkflowView};
use crate::order::{ordered_names, NameSet};
use crate::text;

verus! {

/// Verdict on a workflow's dependencies.
#[derive(Debug, Clone, PartialEq)]
pub enum DepEvaluation {
    /// Every dependency is archived, or there is none.
    Satisfied,
    /// These dependencies, sorted and each once, are not archived yet.
    Pending(Vec<String>),
    /// A dependency can never be archived; the reason says which and why.
    Failed(String),
}

/// The first workflow of that name.
pub open spec fn workflow_named(ws: Seq<WorkflowView>, name: Seq<char>) -> Option<WorkflowView>
    decreases ws.len(),
{
    if ws.len() == 0 {
        None
    } else if ws[0].name == name {
        Some(ws[0])
    } else {
        workflow_named(ws.drop_first(), name)
    }
}

/// What the workflow of that name depends on.
pub open spec fn needs(ws: Seq<WorkflowView>, name: Seq<char>) -> Seq<Seq<char>> {
    match workflow_named(ws, name) {
        Some(w) => w.metadata.depends_on,
        None => Seq::empty(),
    }
}

/// The first way on from the end of `path` to `target`: over one of `deps`
/// from the `k`-th on, tried in order, and then over the dependencies of that
/// one, without coming to any name twice.
pub open spec fn way(
    ws: Seq<WorkflowView>,
    target: Seq<char>,
    path: Seq<Seq<char>>,
    deps: Seq<Seq<char>>,
    k: int,
) -> Option<Seq<Seq<char>>>
    decreases ws.len() + 2 - path.len(), deps.len() - k,
{
    if k < 0 || k >= deps.len() || path.len() > ws.len() + 1 {
        None
    } else if deps[k] == target {
        Some(path.push(deps[k]))
    } else if path.contains(deps[k]) {
        way(ws, target, path, deps, k + 1)
    } else {
        match way(ws, target, path.push(deps[k]), needs(ws, deps[k]), 0) {
            Some(p) => Some(p),
            None => way(ws, target, path, deps, k + 1),
        }
    }
}

/// The names on a cycle of dependencies through `me`, from `me` to `me`.
pub open spec fn cycle_path(me: WorkflowView, ws: Seq<WorkflowView>) -> Option<Seq<Seq<char>>> {
    way(ws, me.name, seq![me.name], me.metadata.depends_on, 0)
}

/// The verdict on the first `n` dependencies, cycles apart: an error, or the
/// names of those that are not archived yet.
pub open spec fn dep_statuses(ws: Seq<WorkflowView>, deps: Seq<Seq<char>>) -> Result<
    Seq<Seq<char>>,
    Seq<char>,
>
    decreases deps.len(),
{
    if deps.len() == 0 {
        Ok(Seq::empty())
    } else {
        match dep_statuses(ws, deps.drop_last()) {
            Err(e) => Err(e),
            Ok(pending) => {
                let dep = deps.last();
                match workflow_named(ws, dep) {
                    None => Err("dependency '"@ + dep + "' not found"@),
                    Some(w) => match w.status {
                        StatusView::Archived => Ok(pending),
                        StatusView::Cancelled => Err("dependency '"@ + dep + "' was cancelled"@),
                        StatusView::Failed { reason } => Err(
                            "dependency '"@ + dep + "' failed: "@ + reason,
                        ),
                        _ => Ok(pending.push(dep)),
                    },
                }
            },
        }
    }
}

/// The verdict that `evaluate` owes.
pub open spec fn verdict(r: DepEvaluation, me: WorkflowView, ws: Seq<WorkflowView>) -> bool {
    let deps = me.metadata.depends_on;
    match cycle_path(me, ws) {
        Some(path) => r matches DepEvaluation::Failed(reason) && reason@ == "dependency cycle: "@
            + text::joined(path, " → "@),
        None => match dep_statuses(ws, deps) {
            Err(why) => r matches DepEvaluation::Failed(reason) && reason@ == why,
            Ok(pending) => if pending.len() == 0 {
                r is Satisfied
            } else {
                r matches DepEvaluation::Pending(names) && ordered_names(
                    text::texts(names@),
                    pending.to_set(),
                )
            },
        },
    }
}

/// The first workflow of that name.
pub fn find_workflow<'a>(ws: &'a Vec<Workflow>, name: &str) -> (r: Option<&'a Workflow>)
    ensures
        match workflow_named(workflow_views(ws@), name@) {
            Some(w) => r is Some && r->0@ == w,
            None => r is None,
        },
{
    let ghost all = workflow_views(ws@);
    let mut i: usize = 0;
    proof {
        assert(all.skip(0) =~= all);
    }
    while i < ws.len()
        invariant
            all == workflow_views(ws@),
            i <= ws.len(),
            workflow_named(all, name@) == workflow_named(all.skip(i as int), name@),
        decreases ws.len() - i,
    {
        proof {
            assert(all.skip(i as int).drop_first() =~= all.skip(i + 1));
            assert(all.skip(i as int)[0] == ws@[i as int]@);
        }
        if text::same(ws[i].name.as_str(), name) {
            return Some(&ws[i]);
        }
        i = i + 1;
    }
    None
}

/// The names of the workflows.
pub open spec fn workflow_names(ws: Seq<WorkflowView>) -> Seq<Seq<char>> {
    ws.map_values(|w: WorkflowView| w.name)
}

/// A path on which no name occurs twice, and whose names, but for the first
/// and, where nothing leads on, the last, are those of workflows.
pub open spec fn search_path(
    ws: Seq<WorkflowView>,
    path: Seq<Seq<char>>,
    deps: Seq<Seq<char>>,
) -> bool {
    &&& path.len() > 0
    &&& path.no_duplicates()
    &&& forall|i: int|
        1 <= i < path.len() - 1 ==> workflow_names(ws).contains(#[trigger] path[i])
    &&& path.len() > 1 && deps.len() > 0 ==> workflow_names(ws).contains(path.last())
}

proof fn named_is_among(ws: Seq<WorkflowView>, name: Seq<char>)
    ensures
        workflow_named(ws, name) is Some ==> workflow_names(ws).contains(name),
    decreases ws.len(),
{
    if ws.len() > 0 {
        if ws[0].name == name {
            assert(workflow_names(ws)[0] == name);
        } else {
            named_is_among(ws.drop_first(), name);
            if workflow_named(ws, name) is Some {
                let i = workflow_names(ws.drop_first()).index_of(name);
                assert(workflow_names(ws)[i + 1] == name);
            }
        }
    }
}

/// A path that leads on is no longer than there are workflows, and one.
proof fn path_is_short(ws: Seq<WorkflowView>, path: Seq<Seq<char>>, deps: Seq<Seq<char>>)
    requires
        search_path(ws, path, deps),
        deps.len() > 0,
    ensures
        path.len() <= ws.len() + 1,
{
    let tail = path.drop_first();
    let names = workflow_names(ws);
    broadcast use vstd::seq_lib::seq_to_set_is_finite;

    assert(tail.no_duplicates());
    tail.unique_seq_to_set();
    assert(tail.to_set().subset_of(names.to_set())) by {
        assert forall|x: Seq<char>| tail.to_set().contains(x) implies names.to_set().contains(x) by {
            let i = tail.index_of(x);
            assert(path[i + 1] == x);
            if i + 1 == path.len() - 1 {
                assert(path.last() == x);
            }
        }
    }
    vstd::set_lib::lemma_len_subset(tail.to_set(), names.to_set());
    names.lemma_cardinality_of_set();
}

/// Search on from the end of `path`, over `deps` and what they depend on, for
/// `target`. Where it is found, `path` leads to it.
fn dfs_back_to(
    target: &str,
    deps: &Vec<String>,
    others: &Vec<Workflow>,
    path: &mut Vec<String>,
) -> (r: bool)
    requires
        search_path(workflow_views(others@), text::texts(old(path)@), text::texts(deps@)),
    ensures
        match way(
            workflow_views(others@),
            target@,
            text::texts(old(path)@),
            text::texts(deps@),
            0,
        ) {
            Some(p) => r && text::texts(final(path)@) == p,
            None => !r && text::texts(final(path)@) == text::texts(old(path)@),
        },
    decreases others@.len() + 2 - old(path)@.len(),
{
    let ghost ws = workflow_views(others@);
    let ghost p0 = text::texts(path@);
    let ghost ds = text::texts(deps@);
    let mut k: usize = 0;
    while k < deps.len()
        invariant
            ws == workflow_views(others@),
            p0 == text::texts(old(path)@),
            ds == text::texts(deps@),
            search_path(ws, p0, ds),
            k <= deps.len(),
            text::texts(path@) == p0,
            way(ws, target@, p0, ds, 0) == way(ws, target@, p0, ds, k as int),
        decreases deps.len() - k,
    {
        let dep: &String = &deps[k];
        proof {
            path_is_short(ws, p0, ds);
            assert(ds[k as int] == dep@);
        }
        if text::same(dep.as_str(), target) {
            path.push(dep.clone());
            proof {
                assert(text::texts(path@) =~= p0.push(dep@));
            }
            return true;
        }
        let seen: bool = text::list_has(path, dep.as_str());
        if !seen {
            let none: Vec<String> = Vec::new();
            let next: &Vec<String> = match find_workflow(others, dep.as_str()) {
                Some(w) => &w.metadata.depends_on,
                None => &none,
            };
            let ghost p1 = p0.push(dep@);
            proof {
                assert(text::texts(next@) =~= needs(ws, dep@));
                named_is_among(ws, dep@);
                assert forall|i: int| 1 <= i < p1.len() - 1 implies workflow_names(ws).contains(
                    #[trigger] p1[i],
                ) by {
                    if i == p0.len() - 1 {
                        assert(p0.last() == p1[i]);
                    } else {
                        assert(p0[i] == p1[i]);
                    }
                }
            }
            path.push(dep.clone());
            proof {
                assert(text::texts(path@) =~= p1);
                assert(p1.last() == dep@);
            }
            if dfs_back_to(target, next, others, path) {
                return true;
            }
            let ghost longer = path@;
            path.pop();
            proof {
                assert(text::texts(path@) =~= text::texts(longer).drop_last());
                assert(p1.drop_last() =~= p0);
            }
        }
        k = k + 1;
    }
    false
}

/// The names on a cycle of dependencies that starts at `me` and returns to
/// it, where there is one.
pub fn detect_cycle(me: &Workflow, others: &Vec<Workflow>) -> (r: Option<Vec<String>>)
    ensures
        match cycle_path(me@, workflow_views(others@)) {
            Some(p) => r is Some && text::texts(r->0@) == p,
            None => r is None,
        },
{
    let mut path: Vec<String> = Vec::new();
    path.push(me.name.clone());
    proof {
        assert(text::texts(path@) =~= seq![me@.name]);
    }
    if dfs_back_to(me.name.as_str(), &me.metadata.depends_on, others, &mut path) {
        Some(path)
    } else {
        None
    }
}

proof fn dep_error_stays(ws: Seq<WorkflowView>, deps: Seq<Seq<char>>, n: int)
    requires
        0 <= n <= deps.len(),
        dep_statuses(ws, deps.take(n)) is Err,
    ensures
        dep_statuses(ws, deps) == dep_statuses(ws, deps.take(n)),
    decreases deps.len() - n,
{
    if n < deps.len() {
        assert(deps.take(n + 1).drop_last() =~= deps.take(n));
        dep_error_stays(ws, deps, n + 1);
    } else {
        assert(deps.take(n) =~= deps);
    }
}

/// `head`, the name of a dependency, and `tail`.
fn about(dep: &str, tail: &str) -> (r: String)
    ensures
        r@ == "dependency '"@ + dep@ + tail@,
{
    let mut out: String = text::owned("dependency '");
    out.append(dep);
    out.append(tail);
    out
}

/// Evaluate what `me` depends on against the other workflows.
///
/// Cycles are looked for first, and then each dependency in turn, so that the
/// reason of a failure does not depend on anything but the workflows.
pub fn evaluate(me: &Workflow, others: &Vec<Workflow>) -> (r: DepEvaluation)
    ensures
        verdict(r, me@, workflow_views(others@)),
{
    let ghost ws = workflow_views(others@);
    let ghost deps = me@.metadata.depends_on;
    match detect_cycle(me, others) {
        Some(path) => {
            let mut reason: String = text::owned("dependency cycle: ");
            reason.append(text::join(&path, " → ").as_str());
            return DepEvaluation::Failed(reason);
        },
        None => {},
    }
    let mut pending: NameSet = NameSet::new();
    let ghost mut names: Seq<Seq<char>> = Seq::empty();
    let mut blocked: bool = false;
    let mut i: usize = 0;
    proof {
        assert(deps.take(0) =~= Seq::<Seq<char>>::empty());
        assert(names.to_set() =~= Set::<Seq<char>>::empty());
    }
    while i < me.metadata.depends_on.len()
        invariant
            ws == workflow_views(others@),
            deps == me@.metadata.depends_on,
            cycle_path(me@, ws) is None,
            i <= me.metadata.depends_on.len(),
            dep_statuses(ws, deps.take(i as int)) == Ok::<Seq<Seq<char>>, Seq<char>>(names),
            pending@ == names.to_set(),
            blocked == (names.len() > 0),
        decreases me.metadata.depends_on.len() - i,
    {
        let dep: &String = &me.metadata.depends_on[i];
        proof {
            assert(deps.take(i + 1).drop_last() =~= deps.take(i as int));
            assert(deps.take(i + 1).last() == dep@);
        }
        match find_workflow(others, dep.as_str()) {
            None => {
                proof {
                    dep_error_stays(ws, deps, i + 1);
                }
                return DepEvaluation::Failed(about(dep.as_str(), "' not found"));
            },
            Some(w) => match &w.status {
                WorkflowStatus::Archived => {},
                WorkflowStatus::Cancelled => {
                    proof {
                        dep_error_stays(ws, deps, i + 1);
                    }
                    return DepEvaluation::Failed(about(dep.as_str(), "' was cancelled"));
                },
                WorkflowStatus::Failed { reason } => {
                    let mut why: String = about(dep.as_str(), "' failed: ");
                    why.append(reason.as_str());
                    proof {
                        dep_error_stays(ws, deps, i + 1);
                    }
                    return DepEvaluation::Failed(why);
                },
                _ => {
                    let ghost before = names;
                    pending.insert(dep.clone());
                    blocked = true;
                    proof {
                        names = before.push(dep@);
                        assert(names.to_set() =~= before.to_set().insert(dep@)) by {
                            assert forall|x: Seq<char>| before.contains(x) implies names.contains(x) by {
                                let j = before.index_of(x);
                                assert(names[j] == x);
                            }
                            assert(names[names.len() - 1] == dep@);
                        }
                    }
                },
            },
        }
        i = i + 1;
    }
    proof {
        assert(deps.take(deps.len() as int) =~= deps);
    }
    if blocked {
        DepEvaluation::Pending(text::owned_list(pending.names()))
    } else {
        DepEvaluation::Satisfied
    }
}

// ---------------------------------------------------------------------
// Cycles
// ---------------------------------------------------------------------

/// `b` is among what `a` depends on.
pub open spec fn depends(
    me: WorkflowView,
    ws: Seq<WorkflowView>,
    a: Seq<char>,
    b: Seq<char>,
) -> bool {
    if a == me.name {
        me.metadata.depends_on.contains(b)
    } else {
        needs(ws, a).contains(b)
    }
}

/// A walk over dependencies from `me` back to `me`.
pub open spec fn way_round(
    me: WorkflowView,
    ws: Seq<WorkflowView>,
    w: Seq<Seq<char>>,
) -> bool {
    &&& w.len() >= 2
    &&& w.first() == me.name
    &&& w.last() == me.name
    &&& forall|i: int| 0 <= i < w.len() - 1 ==> depends(me, ws, #[trigger] w[i], w[i + 1])
}

/// Such a walk that comes to no name twice but for `me` at its ends.
pub open spec fn cycle(me: WorkflowView, ws: Seq<WorkflowView>, w: Seq<Seq<char>>) -> bool {
    way_round(me, ws, w) && w.drop_last().no_duplicates()
}

/// The way that `way` finds goes on from `path` over dependencies, comes to no
/// name twice, and ends at `target`.
proof fn way_leads(
    me: WorkflowView,
    ws: Seq<WorkflowView>,
    path: Seq<Seq<char>>,
    deps: Seq<Seq<char>>,
    k: int,
)
    requires
        0 <= k,
        path.len() > 0,
        path.first() == me.name,
        path.no_duplicates(),
        deps == if path.len() == 1 {
            me.metadata.depends_on
        } else {
            needs(ws, path.last())
        },
        forall|i: int| 0 <= i < path.len() - 1 ==> depends(me, ws, #[trigger] path[i], path[i + 1]),
        way(ws, me.name, path, deps, k) is Some,
    ensures
        cycle(me, ws, way(ws, me.name, path, deps, k)->0),
    decreases ws.len() + 2 - path.len(), deps.len() - k,
{
    let d = deps[k];
    assert(deps.contains(d));
    assert(depends(me, ws, path.last(), d)) by {
        if path.len() > 1 {
            assert(path[0] != path[path.len() - 1]);
        }
    }
    if d == me.name {
        let w = path.push(d);
        assert(w.drop_last() =~= path);
        assert forall|i: int| 0 <= i < w.len() - 1 implies depends(me, ws, #[trigger] w[i], w[i + 1]) by {
            if i < path.len() - 1 {
                assert(depends(me, ws, path[i], path[i + 1]));
            }
        }
    } else if path.contains(d) {
        way_leads(me, ws, path, deps, k + 1);
    } else {
        let longer = path.push(d);
        if way(ws, me.name, longer, needs(ws, d), 0) is Some {
            assert forall|i: int| 0 <= i < longer.len() - 1 implies depends(
                me,
                ws,
                #[trigger] longer[i],
                longer[i + 1],
            ) by {
                if i < path.len() - 1 {
                    assert(depends(me, ws, path[i], path[i + 1]));
                }
            }
            way_leads(me, ws, longer, needs(ws, d), 0);
        } else {
            way_leads(me, ws, path, deps, k + 1);
        }
    }
}

/// Where there is a way on that begins with one of `deps` from the `k`-th on,
/// keeps off `path` and comes to no name twice, `way` finds one.
proof fn way_is_found(
    me: WorkflowView,
    ws: Seq<WorkflowView>,
    path: Seq<Seq<char>>,
    deps: Seq<Seq<char>>,
    k: int,
    w: Seq<Seq<char>>,
)
    requires
        0 <= k,
        search_path(ws, path, deps),
        path.first() == me.name,
        w.len() > 0,
        w.last() == me.name,
        exists|j: int| k <= j < deps.len() && deps[j] == w[0],
        w.drop_last().no_duplicates(),
        forall|i: int| 0 <= i < w.len() - 1 ==> !path.contains(#[trigger] w[i]),
        forall|i: int| 0 <= i < w.len() - 1 ==> needs(ws, #[trigger] w[i]).contains(w[i + 1]),
    ensures
        way(ws, me.name, path, deps, k) is Some,
    decreases ws.len() + 2 - path.len(), deps.len() - k,
{
    let j = choose|j: int| k <= j < deps.len() && deps[j] == w[0];
    path_is_short(ws, path, deps);
    let d = deps[k];
    if j > k {
        if d != me.name {
            way_is_found(me, ws, path, deps, k + 1, w);
        }
    } else if w.len() > 1 {
        assert(path.contains(path[0]));
        assert(w[0] != me.name);
        let longer = path.push(d);
        let rest = w.drop_first();
        let next = needs(ws, d);
        assert(needs(ws, w[0]).contains(w[0int + 1]));
        let m = next.index_of(rest[0]);
        assert(next[m] == rest[0]);
        named_is_among(ws, d);
        assert forall|i: int| 1 <= i < longer.len() - 1 implies workflow_names(ws).contains(
            #[trigger] longer[i],
        ) by {
            if i == path.len() - 1 {
                assert(path.last() == longer[i]);
            } else {
                assert(path[i] == longer[i]);
            }
        }
        assert(longer.last() == d);
        assert(search_path(ws, longer, next));
        assert(rest.drop_last() =~= w.drop_last().drop_first());
        assert forall|i: int| 0 <= i < rest.len() - 1 implies !longer.contains(#[trigger] rest[i]) by {
            assert(rest[i] == w[i + 1]);
            assert(!path.contains(w[i + 1]));
            assert(w.drop_last()[0] != w.drop_last()[i + 1]);
            if longer.contains(rest[i]) {
                let n = longer.index_of(rest[i]);
                if n < path.len() {
                    assert(path[n] == rest[i]);
                }
            }
        }
        assert forall|i: int| 0 <= i < rest.len() - 1 implies needs(ws, #[trigger] rest[i]).contains(
            rest[i + 1],
        ) by {
            assert(needs(ws, w[i + 1]).contains(w[i + 1 + 1]));
        }
        way_is_found(me, ws, longer, next, 0, rest);
    }
}

/// A walk round over dependencies can be cut short to one that comes to no
/// name twice.
proof fn some_cycle(me: WorkflowView, ws: Seq<WorkflowView>, w: Seq<Seq<char>>) -> (c: Seq<Seq<char>>)
    requires
        way_round(me, ws, w),
    ensures
        cycle(me, ws, c),
    decreases w.len(),
{
    let front = w.drop_last();
    if front.no_duplicates() {
        w
    } else {
        let (i, j) = choose|i: int, j: int|
            0 <= i < j < front.len() && front[i] == front[j];
        assert(w[i] == w[j]);
        let c = w.take(i + 1) + w.skip(j + 1);
        assert forall|k: int| 0 <= k < c.len() - 1 implies depends(me, ws, #[trigger] c[k], c[k + 1]) by {
            if k < i {
                assert(c[k] == w[k] && c[k + 1] == w[k + 1]);
                assert(depends(me, ws, w[k], w[k + 1]));
            } else {
                let m = k - i + j;
                assert(c[k] == w[m]);
                assert(c[k + 1] == w[m + 1]);
                assert(depends(me, ws, w[m], w[m + 1]));
            }
        }
        some_cycle(me, ws, c)
    }
}

/// A workflow is found to be on a cycle exactly where some walk over
/// dependencies leads from it back to it, and the path that is named is such
/// a walk that comes to no name twice.
pub proof fn cycles_are_found(me: WorkflowView, ws: Seq<WorkflowView>)
    ensures
        cycle_path(me, ws) is Some <==> exists|w: Seq<Seq<char>>| way_round(me, ws, w),
        cycle_path(me, ws) matches Some(p) ==> cycle(me, ws, p),
{
    let start = seq![me.name];
    let deps = me.metadata.depends_on;
    if cycle_path(me, ws) is Some {
        way_leads(me, ws, start, deps, 0);
        assert(way_round(me, ws, cycle_path(me, ws)->0));
    } else if exists|w: Seq<Seq<char>>| way_round(me, ws, w) {
        let w = choose|w: Seq<Seq<char>>| way_round(me, ws, w);
        let c = some_cycle(me, ws, w);
        let rest = c.drop_first();
        assert(depends(me, ws, c[0], c[0int + 1]));
        let j = deps.index_of(rest[0]);
        assert(deps[j] == rest[0]);
        assert(rest.drop_last() =~= c.drop_last().drop_first());
        assert forall|i: int| 0 <= i < rest.len() - 1 implies !start.contains(#[trigger] rest[i])
            && needs(ws, rest[i]).contains(rest[i + 1]) by {
            assert(c.drop_last()[0] != c.drop_last()[i + 1]);
            assert(depends(me, ws, c[i + 1], c[i + 1 + 1]));
        }
        way_is_found(me, ws, start, deps, 0, rest);
    }
}

// ---------------------------------------------------------------------
// Verdicts
// ---------------------------------------------------------------------

/// Workflow `i` is the one that the name leads to: the first that has it.
pub open spec fn led_to(ws: Seq<WorkflowView>, name: Seq<char>, i: int) -> bool {
    &&& 0 <= i < ws.len()
    &&& ws[i].name == name
    &&& forall|j: int| 0 <= j < i ==> (#[trigger] ws[j]).name != name
}

/// There is a workflow of this name, and it is archived.
pub open spec fn is_archived(ws: Seq<WorkflowView>, name: Seq<char>) -> bool {
    exists|i: int| #[trigger] led_to(ws, name, i) && ws[i].status == StatusView::Archived
}

/// There is no workflow of this name, or it was cancelled or has failed.
pub open spec fn is_hopeless(ws: Seq<WorkflowView>, name: Seq<char>) -> bool {
    ||| forall|i: int| 0 <= i < ws.len() ==> (#[trigger] ws[i]).name != name
    ||| exists|i: int| #[trigger]
        led_to(ws, name, i) && (ws[i].status == StatusView::Cancelled || ws[i].status is Failed)
}

/// The workflow that a name leads to is the first that has it.
proof fn named_is_led_to(ws: Seq<WorkflowView>, name: Seq<char>)
    ensures
        match workflow_named(ws, name) {
            Some(w) => exists|i: int| #[trigger] led_to(ws, name, i) && ws[i] == w,
            None => forall|i: int| 0 <= i < ws.len() ==> (#[trigger] ws[i]).name != name,
        },
        forall|i: int, j: int| #[trigger]
            led_to(ws, name, i) && #[trigger] led_to(ws, name, j) ==> i == j,
    decreases ws.len(),
{
    if ws.len() > 0 {
        if ws[0].name == name {
            assert(led_to(ws, name, 0));
        } else {
            let rest = ws.drop_first();
            named_is_led_to(rest, name);
            assert forall|i: int| 1 <= i < ws.len() implies ws[i] == #[trigger] rest[i - 1] by {}
            match workflow_named(rest, name) {
                Some(w) => {
                    let i = choose|i: int| #[trigger] led_to(rest, name, i) && rest[i] == w;
                    assert forall|j: int| 0 <= j < i + 1 implies (#[trigger] ws[j]).name != name by {
                        if j > 0 {
                            assert(rest[j - 1].name != name);
                        }
                    }
                    assert(led_to(ws, name, i + 1));
                },
                None => {
                    assert forall|i: int| 0 <= i < ws.len() implies (#[trigger] ws[i]).name
                        != name by {
                        if i > 0 {
                            assert(rest[i - 1].name != name);
                        }
                    }
                },
            }
        }
    }
}

/// What the walk over the dependencies comes to.
proof fn dep_statuses_are(ws: Seq<WorkflowView>, deps: Seq<Seq<char>>)
    ensures
        match dep_statuses(ws, deps) {
            Err(_) => exists|k: int|
                0 <= k < deps.len() && is_hopeless(ws, #[trigger] deps[k]),
            Ok(pending) => {
                &&& forall|k: int| 0 <= k < deps.len() ==> !is_hopeless(ws, #[trigger] deps[k])
                &&& forall|n: Seq<char>| #[trigger]
                    pending.contains(n) <==> deps.contains(n) && !is_archived(ws, n)
            },
        },
    decreases deps.len(),
{
    if deps.len() > 0 {
        let front = deps.drop_last();
        let dep = deps.last();
        dep_statuses_are(ws, front);
        named_is_led_to(ws, dep);
        match dep_statuses(ws, front) {
            Err(_) => {
                let k = choose|k: int| 0 <= k < front.len() && is_hopeless(ws, #[trigger] front[k]);
                assert(is_hopeless(ws, deps[k]));
            },
            Ok(before) => {
                match dep_statuses(ws, deps) {
                    Err(_) => {
                        assert(is_hopeless(ws, deps[deps.len() - 1]));
                    },
                    Ok(pending) => {
                        assert forall|k: int| 0 <= k < deps.len() implies !is_hopeless(
                            ws,
                            #[trigger] deps[k],
                        ) by {
                            if k < front.len() {
                                assert(!is_hopeless(ws, front[k]));
                            }
                        }
                        assert forall|n: Seq<char>| #[trigger]
                            pending.contains(n) <==> deps.contains(n) && !is_archived(ws, n) by {
                            assert(deps =~= front.push(dep));
                            assert(deps.contains(n) <==> front.contains(n) || n == dep) by {
                                if deps.contains(n) && n != dep {
                                    let k = deps.index_of(n);
                                    assert(front[k] == n);
                                }
                                if front.contains(n) {
                                    let k = front.index_of(n);
                                    assert(deps[k] == n);
                                }
                                assert(deps[deps.len() - 1] == dep);
                            }
                            assert(before.contains(n) <==> front.contains(n) && !is_archived(ws, n));
                            if before.contains(n) && pending != before {
                                let k = before.index_of(n);
                                assert(pending[k] == n);
                            }
                            if pending.contains(n) && pending != before && n != dep {
                                let k = pending.index_of(n);
                                assert(before[k] == n);
                            }
                            if pending != before {
                                assert(pending[before.len() as int] == dep);
                            }
                        }
                    },
                }
            },
        }
    }
}

/// A workflow may start exactly where everything that it depends on is
/// archived. It fails where its dependencies lead back to itself, or where one
/// of them can never be archived. Otherwise it is held, and told by name, in
/// order and each once, exactly what is not archived yet.
pub proof fn only_archived_dependencies_satisfy(
    r: DepEvaluation,
    me: WorkflowView,
    ws: Seq<WorkflowView>,
)
    requires
        verdict(r, me, ws),
    ensures
        ({
            let deps = me.metadata.depends_on;
            let round = exists|w: Seq<Seq<char>>| way_round(me, ws, w);
            let hopeless = exists|k: int|
                0 <= k < deps.len() && is_hopeless(ws, #[trigger] deps[k]);
            &&& r == DepEvaluation::Satisfied <==> !round && forall|k: int|
                0 <= k < deps.len() ==> is_archived(ws, #[trigger] deps[k])
            &&& r is Failed <==> round || hopeless
            &&& r matches DepEvaluation::Pending(names) ==> {
                &&& forall|n: Seq<char>| #[trigger]
                    text::texts(names@).contains(n) <==> deps.contains(n) && !is_archived(ws, n)
                &&& forall|i: int, j: int|
                    0 <= i < j < names@.len() ==> crate::order::before(
                        #[trigger] text::texts(names@)[i],
                        #[trigger] text::texts(names@)[j],
                    )
            }
        }),
{
    let deps = me.metadata.depends_on;
    cycles_are_found(me, ws);
    dep_statuses_are(ws, deps);
    assert forall|k: int| 0 <= k < deps.len() && is_archived(ws, #[trigger] deps[k]) implies !is_hopeless(
        ws,
        deps[k],
    ) by {
        named_is_led_to(ws, deps[k]);
        let i = choose|i: int| #[trigger]
            led_to(ws, deps[k], i) && ws[i].status == StatusView::Archived;
        assert(ws[i].name == deps[k]);
    }
    if cycle_path(me, ws) is None {
        match dep_statuses(ws, deps) {
            Err(_) => {
                let k = choose|k: int| 0 <= k < deps.len() && is_hopeless(ws, #[trigger] deps[k]);
                assert(!is_archived(ws, deps[k]));
            },
            Ok(pending) => {
                if pending.len() == 0 {
                    assert forall|k: int| 0 <= k < deps.len() implies is_archived(
                        ws,
                        #[trigger] deps[k],
                    ) by {
                        assert(deps.contains(deps[k]));
                        assert(!pending.contains(deps[k]));
                    }
                } else {
                    assert(pending.contains(pending[0]));
                    let k = deps.index_of(pending[0]);
                    assert(!is_archived(ws, deps[k]));
                }
            },
        }
    }
}

/// The reason of a failure names a cycle through the workflow from end to end,
/// or the first dependency that can never be archived, and why.
pub proof fn failures_name_their_cause(
    r: DepEvaluation,
    me: WorkflowView,
    ws: Seq<WorkflowView>,
)
    requires
        verdict(r, me, ws),
        r is Failed,
    ensures
        r matches DepEvaluation::Failed(reason) && {
            ||| exists|w: Seq<Seq<char>>| #[trigger]
                cycle(me, ws, w) && reason@ == "dependency cycle: "@ + text::joined(w, " → "@)
            ||| (forall|w: Seq<Seq<char>>| !way_round(me, ws, w)) && exists|k: int|
                0 <= k < me.metadata.depends_on.len() && blames(
                    reason@,
                    ws,
                    #[trigger] me.metadata.depends_on[k],
                ) && forall|j: int|
                    0 <= j < k ==> !is_hopeless(ws, #[trigger] me.metadata.depends_on[j])
        },
{
    let deps = me.metadata.depends_on;
    cycles_are_found(me, ws);
    if cycle_path(me, ws) is Some {
        assert(cycle(me, ws, cycle_path(me, ws)->0));
    } else {
        error_blames_the_first(ws, deps);
    }
}

/// The reason says that this dependency is not there, was cancelled, or failed.
pub open spec fn blames(reason: Seq<char>, ws: Seq<WorkflowView>, dep: Seq<char>) -> bool {
    ||| (forall|i: int| 0 <= i < ws.len() ==> (#[trigger] ws[i]).name != dep) && reason
        == "dependency '"@ + dep + "' not found"@
    ||| exists|i: int| #[trigger]
        led_to(ws, dep, i) && match ws[i].status {
            StatusView::Cancelled => reason == "dependency '"@ + dep + "' was cancelled"@,
            StatusView::Failed { reason: why } => reason == "dependency '"@ + dep + "' failed: "@
                + why,
            _ => false,
        }
}

/// The error of the walk over the dependencies is that of the first that can
/// never be archived.
proof fn error_blames_the_first(ws: Seq<WorkflowView>, deps: Seq<Seq<char>>)
    requires
        dep_statuses(ws, deps) is Err,
    ensures
        exists|k: int|
            0 <= k < deps.len() && blames(dep_statuses(ws, deps)->Err_0, ws, #[trigger] deps[k])
                && forall|j: int| 0 <= j < k ==> !is_hopeless(ws, #[trigger] deps[j]),
    decreases deps.len(),
{
    let front = deps.drop_last();
    let why = dep_statuses(ws, deps)->Err_0;
    if dep_statuses(ws, front) is Err {
        error_blames_the_first(ws, front);
        let k = choose|k: int|
            0 <= k < front.len() && blames(why, ws, #[trigger] front[k]) && forall|j: int|
                0 <= j < k ==> !is_hopeless(ws, #[trigger] front[j]);
        assert(blames(why, ws, deps[k]));
        assert forall|j: int| 0 <= j < k implies !is_hopeless(ws, #[trigger] deps[j]) by {
            assert(!is_hopeless(ws, front[j]));
        }
    } else {
        dep_statuses_are(ws, front);
        named_is_led_to(ws, deps.last());
        assert(blames(why, ws, deps[deps.len() - 1]));
        assert forall|j: int| 0 <= j < deps.len() - 1 implies !is_hopeless(
            ws,
            #[trigger] deps[j],
        ) by {
            assert(!is_hopeless(ws, front[j]));
        }
    }
}

/// A workflow depends on what it lists: the one that is evaluated by its own
/// list, any other by that of the first workflow of its name.
pub proof fn dependencies_are_those_listed(
    me: WorkflowView,
    ws: Seq<WorkflowView>,
    a: Seq<char>,
    b: Seq<char>,
)
    ensures
        a == me.name ==> depends(me, ws, a, b) == me.metadata.depends_on.contains(b),
        a != me.name ==> depends(me, ws, a, b) == exists|i: int| #[trigger]
            led_to(ws, a, i) && ws[i].metadata.depends_on.contains(b),
{
    named_is_led_to(ws, a);
}

} // verus!
