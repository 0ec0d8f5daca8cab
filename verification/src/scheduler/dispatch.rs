//! Pure decisions of the apply phase: which nodes of a graph may run next, and
//! which are done according to the task list.

use std::collections::HashSet;

use vstd::prelude::*;
use vstd::set_lib::{lemma_int_range, lemma_len_subset, set_int_range};

use crate::openspec::annotations::{annotated_views, AnnotatedSection, AnnotatedSectionView, AnnotatedTask, AnnotatedTaskView, Granularity};
use crate::openspec::dag::{closed_walk, cyclic, edge, flat_ids, flat_task, flat_tasks, flat_views, flatten, items_follow, node_views, sound, task_nodes, walk, Dag, DagErrorView, DagNodeView, FlatTask, FlatView};
use crate::text;

verus! {

broadcast use vstd::std_specs::hash::group_hash_axioms;

/// A node that is neither done nor under way, and whose dependencies are all
/// done.
pub open spec fn runnable(
    nodes: Seq<DagNodeView>,
    completed: Set<usize>,
    dispatched: Set<usize>,
    i: int,
) -> bool {
    &&& !completed.contains(i as usize)
    &&& !dispatched.contains(i as usize)
    &&& forall|k: int| 0 <= k < nodes[i].deps.len() ==> completed.contains(#[trigger] nodes[i].deps[k])
}

/// The runnable ones of the first `n` nodes, in order.
pub open spec fn runnable_nodes(
    nodes: Seq<DagNodeView>,
    completed: Set<usize>,
    dispatched: Set<usize>,
    n: nat,
) -> Seq<usize>
    decreases n,
{
    if n == 0 {
        Seq::empty()
    } else {
        let before = runnable_nodes(nodes, completed, dispatched, (n - 1) as nat);
        if runnable(nodes, completed, dispatched, n - 1) {
            before.push((n - 1) as usize)
        } else {
            before
        }
    }
}

/// Indices of the nodes whose dependencies are all in `completed` and which
/// are themselves neither in `completed` nor in `dispatched`, in order.
pub fn next_runnable_nodes(
    dag: &Dag,
    completed: &HashSet<usize>,
    dispatched: &HashSet<usize>,
) -> (r: Vec<usize>)
    ensures
        r@ == runnable_nodes(node_views(dag.nodes@), completed@, dispatched@, dag.nodes@.len()),
{
    let ghost ns = node_views(dag.nodes@);
    let mut out: Vec<usize> = Vec::new();
    let mut i: usize = 0;
    while i < dag.nodes.len()
        invariant
            ns == node_views(dag.nodes@),
            i <= dag.nodes.len(),
            out@ == runnable_nodes(ns, completed@, dispatched@, i as nat),
        decreases dag.nodes.len() - i,
    {
        if !completed.contains(&i) && !dispatched.contains(&i) {
            let mut ready: bool = true;
            let mut k: usize = 0;
            while k < dag.nodes[i as usize].deps.len()
                invariant
                    ns == node_views(dag.nodes@),
                    i < dag.nodes.len(),
                    k <= dag.nodes[i as int].deps.len(),
                    ready <==> forall|m: int|
                        0 <= m < k ==> completed@.contains(#[trigger] ns[i as int].deps[m]),
                decreases dag.nodes[i as int].deps.len() - k,
            {
                let dep: usize = dag.nodes[i].deps[k];
                proof {
                    assert(ns[i as int].deps[k as int] == dep);
                }
                if !completed.contains(&dep) {
                    ready = false;
                }
                k = k + 1;
            }
            if ready {
                out.push(i);
            }
        }
        i = i + 1;
    }
    out
}

/// What `next_runnable_nodes` returns are exactly the runnable nodes, each
/// once and in order.
pub proof fn runnable_nodes_are_runnable(
    nodes: Seq<DagNodeView>,
    completed: Set<usize>,
    dispatched: Set<usize>,
    n: nat,
)
    requires
        n <= nodes.len() <= usize::MAX,
    ensures
        forall|i: int|
            0 <= i < n ==> (#[trigger] runnable(nodes, completed, dispatched, i) <==> runnable_nodes(
                nodes,
                completed,
                dispatched,
                n,
            ).contains(i as usize)),
        forall|k: int|
            0 <= k < runnable_nodes(nodes, completed, dispatched, n).len() ==> #[trigger] runnable_nodes(
                nodes,
                completed,
                dispatched,
                n,
            )[k] < n,
        forall|j: int, k: int|
            0 <= j < k < runnable_nodes(nodes, completed, dispatched, n).len()
                ==> #[trigger] runnable_nodes(nodes, completed, dispatched, n)[j]
                < #[trigger] runnable_nodes(nodes, completed, dispatched, n)[k],
    decreases n,
{
    if n > 0 {
        let m = (n - 1) as nat;
        runnable_nodes_are_runnable(nodes, completed, dispatched, m);
        let before = runnable_nodes(nodes, completed, dispatched, m);
        let all = runnable_nodes(nodes, completed, dispatched, n);
        assert forall|i: int| 0 <= i < n implies (#[trigger] runnable(
            nodes,
            completed,
            dispatched,
            i,
        ) <==> all.contains(i as usize)) by {
            if i < m {
                if before.contains(i as usize) {
                    let k = before.index_of(i as usize);
                    assert(all[k] == i as usize);
                }
                if all.contains(i as usize) {
                    let k = all.index_of(i as usize);
                    assert(before[k] == i as usize);
                }
            } else {
                if runnable(nodes, completed, dispatched, i) {
                    assert(all[all.len() - 1] == i as usize);
                }
                if all.contains(i as usize) && !runnable(nodes, completed, dispatched, i) {
                    let k = before.index_of(i as usize);
                    assert(before[k] < m);
                }
            }
        }
    }
}

/// All tasks of a list are ticked.
pub open spec fn all_done(items: Seq<AnnotatedTaskView>) -> bool {
    forall|k: int| 0 <= k < items.len() ==> (#[trigger] items[k]).task.done
}

/// The first section with this id.
pub open spec fn section_with_id(sections: Seq<AnnotatedSectionView>, id: Seq<char>) -> Option<
    AnnotatedSectionView,
>
    decreases sections.len(),
{
    if sections.len() == 0 {
        None
    } else if sections[0].section.id == id {
        Some(sections[0])
    } else {
        section_with_id(sections.drop_first(), id)
    }
}

/// The section with this id has tasks, and all are ticked.
pub open spec fn section_done(id: Seq<char>, sections: Seq<AnnotatedSectionView>) -> bool {
    match section_with_id(sections, id) {
        Some(s) => s.items.len() > 0 && all_done(s.items),
        None => false,
    }
}

/// Some task with this id, in whichever section, is ticked.
pub open spec fn task_done(id: Seq<char>, sections: Seq<AnnotatedSectionView>) -> bool {
    exists|i: int, k: int|
        #![trigger sections[i].items[k]]
        0 <= i < sections.len() && 0 <= k < sections[i].items.len() && sections[i].items[k].task.id
            == id && sections[i].items[k].task.done
}

/// There are sections, and all their tasks are ticked.
pub open spec fn phase_done(sections: Seq<AnnotatedSectionView>) -> bool {
    sections.len() > 0 && forall|i: int|
        0 <= i < sections.len() ==> all_done((#[trigger] sections[i]).items)
}

/// Whether every task of `items` is ticked.
fn items_done(items: &Vec<AnnotatedTask>) -> (r: bool)
    ensures
        r == all_done(crate::openspec::annotations::annotated_items(items@)),
{
    let ghost vs = crate::openspec::annotations::annotated_items(items@);
    let mut i: usize = 0;
    while i < items.len()
        invariant
            vs == crate::openspec::annotations::annotated_items(items@),
            i <= items.len(),
            forall|k: int| 0 <= k < i ==> (#[trigger] vs[k]).task.done,
        decreases items.len() - i,
    {
        if !items[i].task.done {
            proof {
                assert(!vs[i as int].task.done);
            }
            return false;
        }
        i = i + 1;
    }
    true
}

/// The first section with this id.
pub fn find_section<'a>(section_id: &str, sections: &'a [AnnotatedSection]) -> (r: Option<
    &'a AnnotatedSection,
>)
    ensures
        match section_with_id(annotated_views(sections@), section_id@) {
            Some(s) => r is Some && r->0@ == s,
            None => r is None,
        },
{
    let ghost all = annotated_views(sections@);
    let mut i: usize = 0;
    proof {
        assert(all.skip(0) =~= all);
    }
    while i < sections.len()
        invariant
            all == annotated_views(sections@),
            i <= sections.len(),
            section_with_id(all, section_id@) == section_with_id(all.skip(i as int), section_id@),
        decreases sections.len() - i,
    {
        proof {
            assert(all.skip(i as int).drop_first() =~= all.skip(i + 1));
            assert(all.skip(i as int)[0] == sections@[i as int]@);
        }
        if text::same(sections[i].section.id.as_str(), section_id) {
            return Some(&sections[i]);
        }
        i = i + 1;
    }
    None
}

/// True where the section with this id has tasks and all of them are ticked.
pub fn is_section_done(section_id: &str, sections: &[AnnotatedSection]) -> (r: bool)
    ensures
        r == section_done(section_id@, annotated_views(sections@)),
{
    match find_section(section_id, sections) {
        None => false,
        Some(s) => s.items.len() > 0 && items_done(&s.items),
    }
}

/// True where a task with this dotted id is ticked.
pub fn is_task_done(task_id: &str, sections: &[AnnotatedSection]) -> (r: bool)
    ensures
        r == task_done(task_id@, annotated_views(sections@)),
{
    let ghost all = annotated_views(sections@);
    let mut i: usize = 0;
    while i < sections.len()
        invariant
            all == annotated_views(sections@),
            i <= sections.len(),
            forall|a: int, b: int|
                #![trigger all[a].items[b]]
                0 <= a < i && 0 <= b < all[a].items.len() ==> !(all[a].items[b].task.id == task_id@
                    && all[a].items[b].task.done),
        decreases sections.len() - i,
    {
        let items: &Vec<AnnotatedTask> = &sections[i].items;
        let mut k: usize = 0;
        while k < items.len()
            invariant
                all == annotated_views(sections@),
                i < sections.len(),
                *items == sections@[i as int].items,
                k <= items.len(),
                forall|b: int|
                    #![trigger all[i as int].items[b]]
                    0 <= b < k ==> !(all[i as int].items[b].task.id == task_id@
                        && all[i as int].items[b].task.done),
            decreases items.len() - k,
        {
            proof {
                assert(all[i as int].items[k as int] == items@[k as int]@);
            }
            if items[k].task.done && text::same(items[k].task.id.as_str(), task_id) {
                return true;
            }
            k = k + 1;
        }
        i = i + 1;
    }
    false
}

/// The task of node `i`, with this id, is ticked. A task without an id of its
/// own, to which the graph gives the node's id, is known by its place; otherwise
/// it is enough that a task with the id is ticked, wherever it stands.
pub open spec fn task_node_done(
    i: int,
    id: Seq<char>,
    sections: Seq<AnnotatedSectionView>,
) -> bool {
    let flats = flat_tasks(sections);
    if i < flats.len() && flats[i].made_up && flats[i].id == id {
        flats[i].done
    } else {
        task_done(id, sections)
    }
}

/// Whether the task of node `i` is ticked.
fn is_task_node_done(i: usize, id: &str, sections: &[AnnotatedSection]) -> (r: bool)
    ensures
        r == task_node_done(i as int, id@, annotated_views(sections@)),
{
    let flats: Vec<FlatTask> = flatten(sections);
    proof {
        if i < flats.len() {
            assert(flat_views(flats@)[i as int] == flats@[i as int]@);
        }
    }
    if i < flats.len() && flats[i].made_up && text::same(flats[i].id.as_str(), id) {
        flats[i].done
    } else {
        is_task_done(id, sections)
    }
}

/// Node `i` is done according to the task list: its section, its task, or all.
pub open spec fn node_done(
    granularity: Granularity,
    i: int,
    node: DagNodeView,
    sections: Seq<AnnotatedSectionView>,
) -> bool {
    match granularity {
        Granularity::Section => section_done(node.id, sections),
        Granularity::Task => task_node_done(i, node.id, sections),
        Granularity::Phase => phase_done(sections),
    }
}

/// In the list that a graph of tasks was built from, whatever was ticked since,
/// the node of a task without an id is done exactly where that task is ticked,
/// and the node of one with an id exactly where a task with the id is.
pub proof fn ticked_tasks_are_done(
    built_from: Seq<AnnotatedSectionView>,
    latest: Seq<AnnotatedSectionView>,
    nodes: Seq<DagNodeView>,
    i: int,
)
    requires
        task_nodes(flat_tasks(built_from), flat_tasks(built_from).len())
            == Ok::<Seq<DagNodeView>, DagErrorView>(nodes),
        flat_ids(flat_tasks(latest)) == flat_ids(flat_tasks(built_from)),
        0 <= i < nodes.len(),
    ensures
        nodes.len() == flat_tasks(latest).len(),
        nodes[i].id == flat_tasks(latest)[i].id,
        node_done(Granularity::Task, i, nodes[i], latest) == (if flat_tasks(latest)[i].made_up {
            flat_tasks(latest)[i].done
        } else {
            task_done(nodes[i].id, latest)
        }),
        flat_tasks(latest)[i].done ==> node_done(Granularity::Task, i, nodes[i], latest),
{
    task_nodes_have_ids(flat_tasks(built_from), flat_tasks(built_from).len());
    assert(flat_ids(flat_tasks(latest)).len() == flat_tasks(latest).len());
    assert(flat_ids(flat_tasks(latest))[i] == flat_tasks(latest)[i].id);
    assert(flat_ids(flat_tasks(built_from))[i] == flat_tasks(built_from)[i].id);
    if flat_tasks(latest)[i].done && !flat_tasks(latest)[i].made_up {
        flat_task_stands_in_a_section(latest, i);
    }
}

/// Every task of the flat list stands in a section, with its own id where that
/// was not made up.
proof fn flat_task_stands_in_a_section(sections: Seq<AnnotatedSectionView>, i: int)
    requires
        0 <= i < flat_tasks(sections).len(),
    ensures
        exists|a: int, b: int|
            #![trigger sections[a].items[b]]
            0 <= a < sections.len() && 0 <= b < sections[a].items.len()
                && sections[a].items[b].task.done == flat_tasks(sections)[i].done && (
            !flat_tasks(sections)[i].made_up ==> sections[a].items[b].task.id == flat_tasks(
                sections,
            )[i].id),
    decreases sections.len(),
{
    let n = sections.len() - 1;
    let s = sections.last();
    let before = flat_tasks(sections.drop_last());
    items_follow(before, s, s.items.len());
    if i < before.len() {
        flat_task_stands_in_a_section(sections.drop_last(), i);
        let (a, b) = choose|a: int, b: int|
            #![trigger sections.drop_last()[a].items[b]]
            0 <= a < sections.drop_last().len() && 0 <= b < sections.drop_last()[a].items.len()
                && sections.drop_last()[a].items[b].task.done == before[i].done && (
            !before[i].made_up ==> sections.drop_last()[a].items[b].task.id == before[i].id);
        assert(sections[a].items[b] == sections.drop_last()[a].items[b]);
    } else {
        let b = i - before.len();
        assert(flat_tasks(sections)[i] == flat_task(s, s.items[b], i as nat));
        assert(sections[n as int].items[b] == s.items[b]);
    }
}

/// The nodes of tasks stand in the order of the tasks, with their ids.
proof fn task_nodes_have_ids(flats: Seq<FlatView>, n: nat)
    requires
        n <= flats.len(),
        task_nodes(flats, n) is Ok,
    ensures
        task_nodes(flats, n)->Ok_0.len() == n,
        forall|i: int| 0 <= i < n ==> (#[trigger] task_nodes(flats, n)->Ok_0[i]).id == flats[i].id,
    decreases n,
{
    if n > 0 {
        task_nodes_have_ids(flats, (n - 1) as nat);
    }
}

/// True where a node of the graph is done according to the task list.
pub fn is_node_done(dag: &Dag, node_idx: usize, sections: &[AnnotatedSection]) -> (r: bool)
    ensures
        r == (node_idx < dag.nodes@.len() && node_done(
            dag.granularity,
            node_idx as int,
            node_views(dag.nodes@)[node_idx as int],
            annotated_views(sections@),
        )),
{
    if node_idx >= dag.nodes.len() {
        return false;
    }
    let id: &str = dag.nodes[node_idx].id.as_str();
    match dag.granularity {
        Granularity::Section => is_section_done(id, sections),
        Granularity::Task => is_task_node_done(node_idx, id, sections),
        Granularity::Phase => {
            let ghost all = annotated_views(sections@);
            let mut i: usize = 0;
            while i < sections.len()
                invariant
                    all == annotated_views(sections@),
                    dag.granularity is Phase,
                    i <= sections.len(),
                    forall|a: int| 0 <= a < i ==> all_done((#[trigger] all[a]).items),
                decreases sections.len() - i,
            {
                if !items_done(&sections[i].items) {
                    proof {
                        assert(!all_done(all[i as int].items));
                    }
                    return false;
                }
                i = i + 1;
            }
            sections.len() > 0
        },
    }
}

// ---------------------------------------------------------------------
// Progress
// ---------------------------------------------------------------------

/// Node `u` is not done, and neither is one that it depends on, `v`.
spec fn blocked_by(nodes: Seq<DagNodeView>, completed: Set<usize>, u: usize, v: usize) -> bool {
    edge(nodes, u, v) && !completed.contains(v)
}

/// A walk of `n` steps from `u` along dependencies that are not done.
spec fn blocked_walk(
    nodes: Seq<DagNodeView>,
    completed: Set<usize>,
    u: usize,
    n: nat,
) -> Seq<usize>
    decreases n,
{
    if n == 0 {
        seq![u]
    } else {
        let before = blocked_walk(nodes, completed, u, (n - 1) as nat);
        before.push(choose|v: usize| blocked_by(nodes, completed, before.last(), v))
    }
}

/// Where every node that is not done waits for another, one can walk on from
/// each without end.
proof fn blocked_walk_is_walk(
    nodes: Seq<DagNodeView>,
    completed: Set<usize>,
    u: usize,
    n: nat,
)
    requires
        u < nodes.len(),
        !completed.contains(u),
        forall|x: usize|
            #![trigger completed.contains(x)]
            x < nodes.len() && !completed.contains(x) ==> exists|v: usize|
                blocked_by(nodes, completed, x, v),
    ensures
        blocked_walk(nodes, completed, u, n).len() == n + 1,
        walk(nodes, blocked_walk(nodes, completed, u, n)),
        forall|k: int|
            0 <= k <= n ==> (#[trigger] blocked_walk(nodes, completed, u, n)[k]) < nodes.len()
                && !completed.contains(blocked_walk(nodes, completed, u, n)[k]),
    decreases n,
{
    if n > 0 {
        let before = blocked_walk(nodes, completed, u, (n - 1) as nat);
        let w = blocked_walk(nodes, completed, u, n);
        blocked_walk_is_walk(nodes, completed, u, (n - 1) as nat);
        let x = before.last();
        assert(before[n - 1] == x);
        assert(!completed.contains(x));
        let v = choose|v: usize| blocked_by(nodes, completed, x, v);
        assert(blocked_by(nodes, completed, x, v));
        assert(w == before.push(v));
        assert forall|i: int| 0 <= i < w.len() - 1 implies edge(nodes, #[trigger] w[i], w[i + 1]) by {
            if i < before.len() - 1 {
                assert(edge(nodes, before[i], before[i + 1]));
            }
        }
        assert forall|k: int| 0 <= k <= n implies (#[trigger] w[k]) < nodes.len()
            && !completed.contains(w[k]) by {
            if k < n {
                assert(w[k] == before[k]);
            }
        }
    }
}

/// A walk that is longer than there are nodes comes back to one of them.
proof fn long_walk_closes(nodes: Seq<DagNodeView>, w: Seq<usize>)
    requires
        walk(nodes, w),
        w.len() > nodes.len(),
        forall|k: int| 0 <= k < w.len() ==> #[trigger] w[k] < nodes.len(),
    ensures
        cyclic(nodes),
{
    let n = w.map_values(|u: usize| u as int);
    if n.no_duplicates() {
        n.unique_seq_to_set();
        lemma_int_range(0, nodes.len() as int);
        assert(n.to_set().subset_of(set_int_range(0, nodes.len() as int))) by {
            assert forall|x: int| n.to_set().contains(x) implies set_int_range(
                0,
                nodes.len() as int,
            ).contains(x) by {
                let k = choose|k: int| 0 <= k < n.len() && n[k] == x;
                assert(w[k] < nodes.len());
            }
        }
        lemma_len_subset(n.to_set(), set_int_range(0, nodes.len() as int));
    }
    let (i, j) = choose|i: int, j: int|
        0 <= i < n.len() && 0 <= j < n.len() && i != j && n[i] == n[j];
    let (a, b) = if i < j {
        (i, j)
    } else {
        (j, i)
    };
    let c = w.subrange(a, b + 1);
    assert(c.first() == w[a] && c.last() == w[b]);
    assert forall|k: int| 0 <= k < c.len() - 1 implies edge(nodes, #[trigger] c[k], c[k + 1]) by {
        assert(edge(nodes, w[a + k], w[a + k + 1]));
    }
    assert(closed_walk(nodes, c));
}

/// Where a graph has no cycle, is not done, and nothing is under way, some node
/// can run: the work never comes to a halt before its end.
pub proof fn unfinished_graph_goes_on(
    nodes: Seq<DagNodeView>,
    completed: Set<usize>,
    dispatched: Set<usize>,
)
    requires
        nodes.len() <= usize::MAX,
        sound(nodes),
        dispatched.subset_of(completed),
        exists|u: usize| u < nodes.len() && !(#[trigger] completed.contains(u)),
    ensures
        runnable_nodes(nodes, completed, dispatched, nodes.len()).len() > 0,
{
    let n = nodes.len();
    let next = runnable_nodes(nodes, completed, dispatched, n);
    runnable_nodes_are_runnable(nodes, completed, dispatched, n);
    if next.len() == 0 {
        assert forall|x: usize|
            #![trigger completed.contains(x)]
            x < nodes.len() && !completed.contains(x) implies exists|v: usize|
            blocked_by(nodes, completed, x, v) by {
            let i = x as int;
            assert(i as usize == x);
            assert(!next.contains(i as usize));
            assert(!runnable(nodes, completed, dispatched, i));
            let k = choose|k: int|
                0 <= k < nodes[i].deps.len() && !completed.contains(#[trigger] nodes[i].deps[k]);
            let v = nodes[i].deps[k];
            assert(nodes[x as int].deps.contains(v));
            assert(blocked_by(nodes, completed, x, v));
        }
        let u = choose|u: usize| u < nodes.len() && !(#[trigger] completed.contains(u));
        blocked_walk_is_walk(nodes, completed, u, n);
        let w = blocked_walk(nodes, completed, u, n);
        assert forall|k: int| 0 <= k < w.len() implies #[trigger] w[k] < nodes.len() by {}
        long_walk_closes(nodes, w);
    }
}

// ---------------------------------------------------------------------
// What runs, and what is done
// ---------------------------------------------------------------------

/// A node may run exactly where it is neither done nor under way and everything
/// that it depends on is done; the nodes that may run are listed in order.
pub proof fn nodes_run_when_their_dependencies_are_done(
    nodes: Seq<DagNodeView>,
    completed: Set<usize>,
    dispatched: Set<usize>,
    u: usize,
)
    requires
        nodes.len() <= usize::MAX,
    ensures
        ({
            let next = runnable_nodes(nodes, completed, dispatched, nodes.len());
            &&& next.contains(u) <==> u < nodes.len() && !completed.contains(u)
                && !dispatched.contains(u) && forall|v: usize| #[trigger]
                nodes[u as int].deps.contains(v) ==> completed.contains(v)
            &&& forall|j: int, k: int|
                0 <= j < k < next.len() ==> #[trigger] next[j] < #[trigger] next[k]
        }),
{
    let n = nodes.len();
    let next = runnable_nodes(nodes, completed, dispatched, n);
    runnable_nodes_are_runnable(nodes, completed, dispatched, n);
    if next.contains(u) {
        let k = next.index_of(u);
        assert(next[k] < n);
    }
    if u < n {
        let i = u as int;
        let deps = nodes[i].deps;
        assert(i as usize == u);
        assert(runnable(nodes, completed, dispatched, i) <==> next.contains(u));
        if forall|v: usize| #[trigger] deps.contains(v) ==> completed.contains(v) {
            assert forall|k: int| 0 <= k < deps.len() implies completed.contains(
                #[trigger] deps[k],
            ) by {
                assert(deps.contains(deps[k]));
            }
        }
        if runnable(nodes, completed, dispatched, i) {
            assert forall|v: usize| #[trigger] deps.contains(v) implies completed.contains(v) by {
                let k = deps.index_of(v);
                assert(completed.contains(nodes[i].deps[k]));
            }
        }
    }
}

/// The node of a section is done exactly where the first section with its id
/// has tasks and every one of them is ticked.
pub proof fn sections_are_done_with_their_tasks(
    sections: Seq<AnnotatedSectionView>,
    i: int,
    node: DagNodeView,
)
    ensures
        node_done(Granularity::Section, i, node, sections) <==> exists|a: int|
            0 <= a < sections.len() && (#[trigger] sections[a]).section.id == node.id
                && sections[a].items.len() > 0 && (forall|k: int|
                0 <= k < sections[a].items.len() ==> (
                #[trigger] sections[a].items[k]).task.done) && forall|b: int|
                0 <= b < a ==> (#[trigger] sections[b]).section.id != node.id,
{
    first_section_with_id(sections, node.id);
    match section_with_id(sections, node.id) {
        Some(s) => {
            let a = choose|a: int|
                0 <= a < sections.len() && #[trigger] sections[a] == s && s.section.id == node.id
                    && forall|b: int| 0 <= b < a ==> (#[trigger] sections[b]).section.id != node.id;
            if node_done(Granularity::Section, i, node, sections) {
                assert forall|k: int| 0 <= k < sections[a].items.len() implies (
                #[trigger] sections[a].items[k]).task.done by {
                    assert(s.items[k].task.done);
                }
            }
            if exists|c: int|
                0 <= c < sections.len() && (#[trigger] sections[c]).section.id == node.id
                    && sections[c].items.len() > 0 && (forall|k: int|
                    0 <= k < sections[c].items.len() ==> (
                    #[trigger] sections[c].items[k]).task.done) && forall|b: int|
                    0 <= b < c ==> (#[trigger] sections[b]).section.id != node.id {
                let c = choose|c: int|
                    0 <= c < sections.len() && (#[trigger] sections[c]).section.id == node.id
                        && sections[c].items.len() > 0 && (forall|k: int|
                        0 <= k < sections[c].items.len() ==> (
                        #[trigger] sections[c].items[k]).task.done) && forall|b: int|
                        0 <= b < c ==> (#[trigger] sections[b]).section.id != node.id;
                assert(c == a) by {
                    if c < a {
                        assert(sections[c].section.id != node.id);
                    }
                    if a < c {
                        assert(sections[a].section.id != node.id);
                    }
                }
                assert forall|k: int| 0 <= k < s.items.len() implies (
                #[trigger] s.items[k]).task.done by {
                    assert(sections[c].items[k].task.done);
                }
            }
        },
        None => {},
    }
}

/// The section that an id leads to is the first that has it.
proof fn first_section_with_id(sections: Seq<AnnotatedSectionView>, id: Seq<char>)
    ensures
        match section_with_id(sections, id) {
            Some(s) => exists|a: int|
                0 <= a < sections.len() && #[trigger] sections[a] == s && s.section.id == id
                    && forall|b: int| 0 <= b < a ==> (#[trigger] sections[b]).section.id != id,
            None => forall|b: int|
                0 <= b < sections.len() ==> (#[trigger] sections[b]).section.id != id,
        },
    decreases sections.len(),
{
    if sections.len() > 0 && sections[0].section.id != id {
        let rest = sections.drop_first();
        first_section_with_id(rest, id);
        assert forall|b: int| 1 <= b < sections.len() implies sections[b] == #[trigger] rest[b
            - 1] by {}
        match section_with_id(rest, id) {
            Some(s) => {
                let a = choose|a: int|
                    0 <= a < rest.len() && #[trigger] rest[a] == s && s.section.id == id && forall|
                        b: int,
                    |
                        0 <= b < a ==> (#[trigger] rest[b]).section.id != id;
                assert(sections[a + 1] == s);
                assert forall|b: int| 0 <= b < a + 1 implies (#[trigger] sections[b]).section.id
                    != id by {
                    if b > 0 {
                        assert(rest[b - 1].section.id != id);
                    }
                }
            },
            None => {
                assert forall|b: int| 0 <= b < sections.len() implies (
                #[trigger] sections[b]).section.id != id by {
                    if b > 0 {
                        assert(rest[b - 1].section.id != id);
                    }
                }
            },
        }
    }
}

/// The one node of a workflow that is not cut up is done exactly where there
/// are sections and every task of every section is ticked.
pub proof fn phases_are_done_with_all_tasks(
    sections: Seq<AnnotatedSectionView>,
    i: int,
    node: DagNodeView,
)
    ensures
        node_done(Granularity::Phase, i, node, sections) <==> sections.len() > 0 && forall|
            a: int,
            k: int,
        |
            #![trigger sections[a].items[k]]
            0 <= a < sections.len() && 0 <= k < sections[a].items.len()
                ==> sections[a].items[k].task.done,
{
    if node_done(Granularity::Phase, i, node, sections) {
        assert forall|a: int, k: int|
            #![trigger sections[a].items[k]]
            0 <= a < sections.len() && 0 <= k < sections[a].items.len() implies sections[a].items[k].task.done by {
            assert(all_done(sections[a].items));
        }
    }
    if sections.len() > 0 && forall|a: int, k: int|
        #![trigger sections[a].items[k]]
        0 <= a < sections.len() && 0 <= k < sections[a].items.len()
            ==> sections[a].items[k].task.done {
        assert forall|a: int| 0 <= a < sections.len() implies all_done(
            (#[trigger] sections[a]).items,
        ) by {
            assert forall|k: int| 0 <= k < sections[a].items.len() implies (
            #[trigger] sections[a].items[k]).task.done by {}
        }
    }
}

/// A task counts as ticked exactly where some line with its id is.
pub proof fn tasks_are_done_wherever_they_stand(
    id: Seq<char>,
    sections: Seq<AnnotatedSectionView>,
)
    ensures
        task_done(id, sections) <==> exists|a: int, k: int|
            #![trigger sections[a].items[k]]
            0 <= a < sections.len() && 0 <= k < sections[a].items.len()
                && sections[a].items[k].task.id == id && sections[a].items[k].task.done,
{
}

} // verus!
