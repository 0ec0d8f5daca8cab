//! Build an executable DAG from an annotated task graph.
//!
//! The graph node is the unit the scheduler dispatches to a worker. The unit
//! depends on the chosen [`Granularity`]: one node per leaf section (the
//! default), one node per task, or one node for the whole `apply` phase. A
//! section is a leaf where no section names it as its parent: a heading that
//! groups others is no unit of work. The first section whose annotation sets a
//! granularity decides for the workflow.
//!
//! Edges:
//! 1. By default a section depends on the section before it.
//! 2. `depends X,Y` replaces that edge for the annotated section.
//! 3. `parallel-with X` is recorded and removes no edge.
//! 4. With task granularity a task depends on the task before it in its
//!    section, or, where it says `needs A.B`, on the named tasks alone.
//!
//! To depend on a heading that groups others is to depend on the leaf sections
//! below it. What such a heading depends on itself is passed on to the section
//! behind it, and to sections below it that depend on it.
//!
//! References to ids that no section has are rejected, whichever section makes
//! them, and so are cycles.

use vstd::prelude::*;
use vstd::string::*;

use super::annotations::{annotated_views, AnnotatedSection, AnnotatedSectionView, AnnotatedTaskView, Granularity};
use crate::text;

verus! {

/// The graph of work of one workflow.
#[derive(Debug, Clone, PartialEq)]
pub struct Dag {
    pub granularity: Granularity,
    pub nodes: Vec<DagNode>,
}

/// One unit of work.
#[derive(Debug, Clone, PartialEq)]
pub struct DagNode {
    /// The section id, or the dotted task id.
    pub id: String,
    /// Human-readable label (heading title or task text).
    pub label: String,
    /// Indices of predecessor nodes in `Dag::nodes`.
    pub deps: Vec<usize>,
    /// Indices of nodes marked as parallelizable with this one.
    pub parallel_with: Vec<usize>,
    /// Optional override of the prompt template name for this node.
    pub prompt_template: Option<String>,
    /// 1-based source line of the heading or task line.
    pub source_line: usize,
}

/// Why no graph could be built.
#[derive(Debug, Clone, PartialEq)]
pub enum DagError {
    /// An annotation pointed at a section or task id that does not exist.
    UnknownRef { from: String, to: String, kind: &'static str },
    /// The annotations would form a directed cycle through these node ids.
    Cycle { involved: Vec<String> },
    /// A workflow with no nodes.
    Empty,
}

/// What a [`DagNode`] holds.
pub ghost struct DagNodeView {
    pub id: Seq<char>,
    pub label: Seq<char>,
    pub deps: Seq<usize>,
    pub parallel_with: Seq<usize>,
    pub prompt_template: Option<Seq<char>>,
    pub source_line: int,
}

/// What a [`DagError`] holds.
pub ghost enum DagErrorView {
    UnknownRef { from: Seq<char>, to: Seq<char>, kind: Seq<char> },
    Cycle { involved: Seq<Seq<char>> },
    Empty,
}

impl View for DagNode {
    type V = DagNodeView;

    open spec fn view(&self) -> DagNodeView {
        DagNodeView {
            id: self.id@,
            label: self.label@,
            deps: self.deps@,
            parallel_with: self.parallel_with@,
            prompt_template: text::text_option(self.prompt_template),
            source_line: self.source_line as int,
        }
    }
}

impl View for DagError {
    type V = DagErrorView;

    open spec fn view(&self) -> DagErrorView {
        match *self {
            DagError::UnknownRef { from, to, kind } => DagErrorView::UnknownRef {
                from: from@,
                to: to@,
                kind: kind@,
            },
            DagError::Cycle { involved } => DagErrorView::Cycle { involved: text::texts(involved@) },
            DagError::Empty => DagErrorView::Empty,
        }
    }
}

/// What the nodes of a list hold.
pub open spec fn node_views(nodes: Seq<DagNode>) -> Seq<DagNodeView> {
    nodes.map_values(|n: DagNode| n@)
}

/// The text of an error.
pub open spec fn error_text(e: DagErrorView) -> Seq<char> {
    match e {
        DagErrorView::UnknownRef { from, to, kind } => kind + " annotation on "@ + from
            + " references unknown id "@ + to,
        DagErrorView::Cycle { involved } => "cycle detected through nodes: "@ + text::joined(
            involved,
            " -> "@,
        ),
        DagErrorView::Empty => "workflow has no schedulable nodes"@,
    }
}

impl DagError {
    /// The message shown for this error.
    pub fn to_text(&self) -> (r: String)
        ensures
            r@ == error_text(self@),
    {
        match self {
            DagError::UnknownRef { from, to, kind } => {
                let mut out: String = text::owned(kind);
                out.append(" annotation on ");
                out.append(from.as_str());
                out.append(" references unknown id ");
                out.append(to.as_str());
                out
            },
            DagError::Cycle { involved } => {
                let mut out: String = text::owned("cycle detected through nodes: ");
                let path: String = text::join(involved, " -> ");
                out.append(path.as_str());
                out
            },
            DagError::Empty => text::owned("workflow has no schedulable nodes"),
        }
    }
}

// ---------------------------------------------------------------------
// The nodes
// ---------------------------------------------------------------------

/// The last index at which `id` stands in `ids`.
pub open spec fn last_index(ids: Seq<Seq<char>>, id: Seq<char>) -> Option<usize>
    decreases ids.len(),
{
    if ids.len() == 0 {
        None
    } else if ids.last() == id {
        Some((ids.len() - 1) as usize)
    } else {
        last_index(ids.drop_last(), id)
    }
}

/// The indices of the ids in `refs`, or the first of `refs` that is no id.
pub open spec fn resolved(ids: Seq<Seq<char>>, refs: Seq<Seq<char>>) -> Result<
    Seq<usize>,
    Seq<char>,
>
    decreases refs.len(),
{
    if refs.len() == 0 {
        Ok(Seq::empty())
    } else {
        match resolved(ids, refs.drop_last()) {
            Err(e) => Err(e),
            Ok(before) => match last_index(ids, refs.last()) {
                None => Err(refs.last()),
                Some(i) => Ok(before.push(i)),
            },
        }
    }
}

/// The granularity of the first section that sets one.
pub open spec fn picked_granularity(sections: Seq<AnnotatedSectionView>) -> Granularity
    decreases sections.len(),
{
    if sections.len() == 0 {
        Granularity::Section
    } else {
        match sections[0].annotations.granularity {
            Some(g) => g,
            None => picked_granularity(sections.drop_first()),
        }
    }
}

/// No section names this one as its parent.
pub open spec fn is_leaf(sections: Seq<AnnotatedSectionView>, s: AnnotatedSectionView) -> bool {
    forall|k: int|
        0 <= k < sections.len() ==> (#[trigger] sections[k]).section.parent != Some(s.section.id)
}

/// The sections that are leaves, in order.
pub open spec fn leaf_sections(sections: Seq<AnnotatedSectionView>) -> Seq<AnnotatedSectionView> {
    sections.filter(|s: AnnotatedSectionView| is_leaf(sections, s))
}

/// The ids of the sections.
pub open spec fn section_ids(sections: Seq<AnnotatedSectionView>) -> Seq<Seq<char>> {
    sections.map_values(|s: AnnotatedSectionView| s.section.id)
}

/// The section stands below the heading with this id.
pub open spec fn below(s: AnnotatedSectionView, id: Seq<char>) -> bool {
    s.section.parent matches Some(p) && (p == id || text::begins(p, id + "."@))
}

/// How many of the first `n` sections are leaves.
pub open spec fn leaves_before(sections: Seq<AnnotatedSectionView>, n: nat) -> nat
    decreases n,
{
    if n == 0 {
        0
    } else if is_leaf(sections, sections[n - 1]) {
        leaves_before(sections, (n - 1) as nat) + 1
    } else {
        leaves_before(sections, (n - 1) as nat)
    }
}

/// The nodes of those of the first `n` sections that are leaves below the
/// heading with this id.
pub open spec fn leaves_below(sections: Seq<AnnotatedSectionView>, id: Seq<char>, n: nat) -> Seq<
    usize,
>
    decreases n,
{
    if n == 0 {
        Seq::empty()
    } else {
        let before = leaves_below(sections, id, (n - 1) as nat);
        if is_leaf(sections, sections[n - 1]) && below(sections[n - 1], id) {
            before.push(leaves_before(sections, (n - 1) as nat) as usize)
        } else {
            before
        }
    }
}

/// The nodes that section `j` stands for: its own where it is a leaf, else
/// those of the leaves below it.
pub open spec fn standing_for(sections: Seq<AnnotatedSectionView>, j: int) -> Seq<usize> {
    if is_leaf(sections, sections[j]) {
        seq![leaves_before(sections, j as nat) as usize]
    } else {
        leaves_below(sections, sections[j].section.id, sections.len())
    }
}

/// The sections that references lead to, where each of them is known.
pub open spec fn targets(sections: Seq<AnnotatedSectionView>, refs: Seq<Seq<char>>) -> Seq<usize> {
    match resolved(section_ids(sections), refs) {
        Ok(ts) => ts,
        Err(_) => Seq::empty(),
    }
}

/// The numbers of `more` that are not listed yet behind those that are.
pub open spec fn united(listed: Seq<usize>, more: Seq<usize>) -> Seq<usize>
    decreases more.len(),
{
    if more.len() == 0 {
        listed
    } else {
        let before = united(listed, more.drop_last());
        if before.contains(more.last()) {
            before
        } else {
            before.push(more.last())
        }
    }
}

/// The nodes that section `i` waits for. Without `depends` it waits for the
/// section before it; where that is a heading that groups others, for what the
/// heading waits for.
pub open spec fn waited_for(sections: Seq<AnnotatedSectionView>, i: nat) -> Seq<usize>
    decreases i, targets(sections, sections[i as int].annotations.depends).len() + 1,
{
    let depends = sections[i as int].annotations.depends;
    if depends.len() > 0 {
        depended_on(sections, i, targets(sections, depends))
    } else if i == 0 {
        Seq::empty()
    } else if is_leaf(sections, sections[i - 1]) {
        standing_for(sections, i - 1)
    } else {
        waited_for(sections, (i - 1) as nat)
    }
}

/// The nodes that section `i` waits for where it depends on the sections `ts`.
/// Each stands for its nodes, but for a heading that section `i` itself stands
/// under: to depend on that is to wait for what the heading waits for.
pub open spec fn depended_on(sections: Seq<AnnotatedSectionView>, i: nat, ts: Seq<usize>) -> Seq<
    usize,
>
    decreases i, ts.len(),
{
    if ts.len() == 0 {
        Seq::empty()
    } else {
        let before = depended_on(sections, i, ts.drop_last());
        let j = ts.last();
        if under_heading(sections, i, j as int) {
            united(before, waited_for(sections, j as nat))
        } else {
            before + standing_for(sections, j as int)
        }
    }
}

/// Section `i` stands under section `j`, which groups it and others.
pub open spec fn under_heading(sections: Seq<AnnotatedSectionView>, i: nat, j: int) -> bool {
    j < i && !is_leaf(sections, sections[j]) && below(sections[i as int], sections[j].section.id)
}

/// The nodes that the sections `ts` stand for.
pub open spec fn all_standing_for(sections: Seq<AnnotatedSectionView>, ts: Seq<usize>) -> Seq<usize>
    decreases ts.len(),
{
    if ts.len() == 0 {
        Seq::empty()
    } else {
        all_standing_for(sections, ts.drop_last()) + standing_for(sections, ts.last() as int)
    }
}

/// The node of section `i`, a leaf.
pub open spec fn section_node(sections: Seq<AnnotatedSectionView>, i: int) -> DagNodeView {
    let s = sections[i];
    DagNodeView {
        id: s.section.id,
        label: s.section.title,
        deps: waited_for(sections, i as nat),
        parallel_with: all_standing_for(sections, targets(sections, s.annotations.parallel_with)),
        prompt_template: s.annotations.prompt_template,
        source_line: s.section.line,
    }
}

/// The nodes of those of the first `n` sections that are leaves.
pub open spec fn leaf_nodes(sections: Seq<AnnotatedSectionView>, n: nat) -> Seq<DagNodeView>
    decreases n,
{
    if n == 0 {
        Seq::empty()
    } else if is_leaf(sections, sections[n - 1]) {
        leaf_nodes(sections, (n - 1) as nat).push(section_node(sections, n - 1))
    } else {
        leaf_nodes(sections, (n - 1) as nat)
    }
}

/// The first reference of a section that is none of the ids.
pub open spec fn unknown_in(ids: Seq<Seq<char>>, s: AnnotatedSectionView) -> Option<DagErrorView> {
    match resolved(ids, s.annotations.depends) {
        Err(to) => Some(DagErrorView::UnknownRef { from: s.section.id, to, kind: "depends"@ }),
        Ok(_) => match resolved(ids, s.annotations.parallel_with) {
            Err(to) => Some(
                DagErrorView::UnknownRef { from: s.section.id, to, kind: "parallel-with"@ },
            ),
            Ok(_) => None,
        },
    }
}

/// The first reference of the first `n` sections that is no section's id.
pub open spec fn first_unknown(sections: Seq<AnnotatedSectionView>, n: nat) -> Option<DagErrorView>
    decreases n,
{
    if n == 0 {
        None
    } else {
        match first_unknown(sections, (n - 1) as nat) {
            Some(e) => Some(e),
            None => unknown_in(section_ids(sections), sections[n - 1]),
        }
    }
}

/// The nodes of the leaf sections, or the first reference of any section that
/// is no section's id.
pub open spec fn section_nodes(sections: Seq<AnnotatedSectionView>) -> Result<
    Seq<DagNodeView>,
    DagErrorView,
> {
    match first_unknown(sections, sections.len()) {
        Some(e) => Err(e),
        None => if leaf_nodes(sections, sections.len()).len() == 0 {
            Err(DagErrorView::Empty)
        } else {
            Ok(leaf_nodes(sections, sections.len()))
        },
    }
}

/// What a section refers to, with the key it does so by: `depends` before
/// `parallel-with`, each in the order written.
pub open spec fn references(s: AnnotatedSectionView) -> Seq<(Seq<char>, Seq<char>)> {
    s.annotations.depends.map_values(|to: Seq<char>| (to, "depends"@))
        + s.annotations.parallel_with.map_values(|to: Seq<char>| (to, "parallel-with"@))
}

/// Reference `k` of section `i` is no section's id.
pub open spec fn unknown_at(sections: Seq<AnnotatedSectionView>, i: int, k: int) -> bool {
    0 <= i < sections.len() && 0 <= k < references(sections[i]).len() && !section_ids(
        sections,
    ).contains(references(sections[i])[k].0)
}

/// Reference `k` of section `i` is no section's id, and every reference before
/// it is one.
pub open spec fn first_unknown_at(sections: Seq<AnnotatedSectionView>, i: int, k: int) -> bool {
    unknown_at(sections, i, k) && forall|h: int, m: int| #[trigger]
        unknown_at(sections, h, m) ==> i < h || (i == h && k <= m)
}

/// The error is the first of all references that is no section's id.
pub open spec fn names_first_unknown(
    sections: Seq<AnnotatedSectionView>,
    e: DagErrorView,
) -> bool {
    exists|i: int, k: int| #[trigger]
        first_unknown_at(sections, i, k) && e == (DagErrorView::UnknownRef {
            from: sections[i].section.id,
            to: references(sections[i])[k].0,
            kind: references(sections[i])[k].1,
        })
}

/// One task, wherever it stands.
pub ghost struct FlatView {
    pub id: Seq<char>,
    pub label: Seq<char>,
    pub line: int,
    pub needs: Seq<Seq<char>>,
    pub section_id: Seq<char>,
    /// Whether the id was made up, since the task has none of its own.
    pub made_up: bool,
    pub done: bool,
}

/// A task as the `n`-th of all tasks, counted from zero. One without an id is
/// given the section's id and its number.
pub open spec fn flat_task(s: AnnotatedSectionView, t: AnnotatedTaskView, n: nat) -> FlatView {
    FlatView {
        id: if t.task.id.len() == 0 {
            s.section.id + "."@ + text::decimal(n + 1)
        } else {
            t.task.id
        },
        label: t.task.text,
        line: t.task.line_range.0,
        needs: t.needs,
        section_id: s.section.id,
        made_up: t.task.id.len() == 0,
        done: t.task.done,
    }
}

/// The first `k` tasks of a section behind those of the sections before.
pub open spec fn flat_items(
    before: Seq<FlatView>,
    s: AnnotatedSectionView,
    k: nat,
) -> Seq<FlatView>
    decreases k,
{
    if k == 0 {
        before
    } else {
        let flats = flat_items(before, s, (k - 1) as nat);
        flats.push(flat_task(s, s.items[k - 1], flats.len()))
    }
}

/// All tasks of all sections, in order.
pub open spec fn flat_tasks(sections: Seq<AnnotatedSectionView>) -> Seq<FlatView>
    decreases sections.len(),
{
    if sections.len() == 0 {
        Seq::empty()
    } else {
        let s = sections.last();
        flat_items(flat_tasks(sections.drop_last()), s, s.items.len())
    }
}

/// The ids of the tasks.
pub open spec fn flat_ids(flats: Seq<FlatView>) -> Seq<Seq<char>> {
    flats.map_values(|f: FlatView| f.id)
}

/// The ids of the sections that the tasks stand in.
pub open spec fn flat_sections(flats: Seq<FlatView>) -> Seq<Seq<char>> {
    flats.map_values(|f: FlatView| f.section_id)
}

/// The node of task `i`.
pub open spec fn task_node(flats: Seq<FlatView>, i: int) -> Result<DagNodeView, DagErrorView> {
    let f = flats[i];
    let deps = if f.needs.len() > 0 {
        resolved(flat_ids(flats), f.needs)
    } else {
        match last_index(flat_sections(flats).take(i), f.section_id) {
            Some(prev) => Ok(seq![prev]),
            None => Ok(Seq::empty()),
        }
    };
    match deps {
        Err(to) => Err(DagErrorView::UnknownRef { from: f.id, to, kind: "needs"@ }),
        Ok(deps) => Ok(
            DagNodeView {
                id: f.id,
                label: f.label,
                deps,
                parallel_with: Seq::empty(),
                prompt_template: None,
                source_line: f.line,
            },
        ),
    }
}

/// The nodes of the first `n` tasks, or the first error among them.
pub open spec fn task_nodes(flats: Seq<FlatView>, n: nat) -> Result<
    Seq<DagNodeView>,
    DagErrorView,
>
    decreases n,
{
    if n == 0 {
        Ok(Seq::empty())
    } else {
        match task_nodes(flats, (n - 1) as nat) {
            Err(e) => Err(e),
            Ok(before) => match task_node(flats, n - 1) {
                Err(e) => Err(e),
                Ok(node) => Ok(before.push(node)),
            },
        }
    }
}

/// The one node of a workflow that is not cut up.
pub open spec fn phase_node(sections: Seq<AnnotatedSectionView>) -> DagNodeView {
    DagNodeView {
        id: "apply"@,
        label: "Apply (whole change)"@,
        deps: Seq::empty(),
        parallel_with: Seq::empty(),
        prompt_template: None,
        source_line: sections[0].section.line,
    }
}

/// The nodes of the graph, before cycles are looked for.
pub open spec fn nodes_of(sections: Seq<AnnotatedSectionView>) -> Result<
    Seq<DagNodeView>,
    DagErrorView,
> {
    match picked_granularity(sections) {
        Granularity::Section => section_nodes(sections),
        Granularity::Task => {
            let flats = flat_tasks(sections);
            if flats.len() == 0 {
                Err(DagErrorView::Empty)
            } else {
                task_nodes(flats, flats.len())
            }
        },
        Granularity::Phase => if sections.len() == 0 {
            Err(DagErrorView::Empty)
        } else {
            Ok(seq![phase_node(sections)])
        },
    }
}

// ---------------------------------------------------------------------
// Cycles
// ---------------------------------------------------------------------

/// Every edge leads to a node.
pub open spec fn edges_valid(nodes: Seq<DagNodeView>) -> bool {
    forall|u: int, k: int|
        #![trigger nodes[u].deps[k]]
        0 <= u < nodes.len() && 0 <= k < nodes[u].deps.len() ==> nodes[u].deps[k] < nodes.len()
}

/// Node `u` depends on node `v`.
pub open spec fn edge(nodes: Seq<DagNodeView>, u: usize, v: usize) -> bool {
    u < nodes.len() && v < nodes.len() && nodes[u as int].deps.contains(v)
}

/// A walk along dependencies.
pub open spec fn walk(nodes: Seq<DagNodeView>, w: Seq<usize>) -> bool {
    forall|i: int| 0 <= i < w.len() - 1 ==> edge(nodes, #[trigger] w[i], w[i + 1])
}

/// A walk along dependencies that ends where it began.
pub open spec fn closed_walk(nodes: Seq<DagNodeView>, w: Seq<usize>) -> bool {
    w.len() >= 2 && w.first() == w.last() && walk(nodes, w)
}

/// Some node depends, over any number of steps, on itself.
pub open spec fn cyclic(nodes: Seq<DagNodeView>) -> bool {
    exists|w: Seq<usize>| closed_walk(nodes, w)
}

/// A graph that there is something to do in, and an order to do it in.
pub open spec fn sound(nodes: Seq<DagNodeView>) -> bool {
    nodes.len() > 0 && edges_valid(nodes) && !cyclic(nodes)
}

/// The ids of the nodes of a walk.
pub open spec fn walk_ids(nodes: Seq<DagNodeView>, w: Seq<usize>) -> Seq<Seq<char>> {
    w.map_values(|u: usize| nodes[u as int].id)
}

/// A cycle that visits no node twice but for its start, named by its ids from
/// the start round to the start again.
pub open spec fn names_cycle(nodes: Seq<DagNodeView>, involved: Seq<Seq<char>>) -> bool {
    exists|w: Seq<usize>| #[trigger]
        closed_walk(nodes, w) && w.drop_last().no_duplicates() && involved == walk_ids(nodes, w)
}

/// A graph whose nodes can be ranked so that every node ranks above those it
/// depends on has no cycle.
proof fn ranked_is_acyclic(nodes: Seq<DagNodeView>, rank: Seq<int>)
    requires
        rank.len() == nodes.len(),
        forall|u: usize, v: usize| #[trigger] edge(nodes, u, v) ==> rank[v as int] < rank[u as int],
    ensures
        !cyclic(nodes),
{
    if cyclic(nodes) {
        let w = choose|w: Seq<usize>| closed_walk(nodes, w);
        walk_descends(nodes, rank, w, w.len() - 1);
    }
}

/// Along a walk the ranks go down.
proof fn walk_descends(nodes: Seq<DagNodeView>, rank: Seq<int>, w: Seq<usize>, i: int)
    requires
        walk(nodes, w),
        0 < i < w.len(),
        forall|u: usize, v: usize| #[trigger] edge(nodes, u, v) ==> rank[v as int] < rank[u as int],
    ensures
        rank[w[i] as int] < rank[w[0] as int],
    decreases i,
{
    assert(edge(nodes, w[i - 1], w[i - 1 + 1]));
    if i > 1 {
        walk_descends(nodes, rank, w, i - 1);
    }
}

/// How far the search has come with a node.
#[derive(Clone, Copy, PartialEq, Eq, Structural)]
enum Color {
    White,
    Gray,
    Black,
}

/// How many nodes have not been seen.
spec fn whites(color: Seq<Color>) -> nat
    decreases color.len(),
{
    if color.len() == 0 {
        0
    } else {
        whites(color.drop_last()) + (if color.last() is White {
            1nat
        } else {
            0nat
        })
    }
}

proof fn whites_monotone(a: Seq<Color>, b: Seq<Color>)
    requires
        a.len() == b.len(),
        forall|u: int| 0 <= u < a.len() && #[trigger] b[u] is White ==> a[u] is White,
    ensures
        whites(b) <= whites(a),
    decreases a.len(),
{
    if a.len() > 0 {
        assert forall|u: int| 0 <= u < a.len() - 1 && #[trigger] b.drop_last()[u] is White implies
            a.drop_last()[u] is White by {
            assert(b[u] is White);
        }
        whites_monotone(a.drop_last(), b.drop_last());
        assert(b[b.len() - 1] is White ==> a[a.len() - 1] is White);
    }
}

proof fn whites_update(a: Seq<Color>, i: int, c: Color)
    requires
        0 <= i < a.len(),
        a[i] is White,
        !(c is White),
    ensures
        whites(a.update(i, c)) + 1 == whites(a),
    decreases a.len(),
{
    let b = a.update(i, c);
    if i == a.len() - 1 {
        assert(b.drop_last() =~= a.drop_last());
    } else {
        assert(b.drop_last() =~= a.drop_last().update(i, c));
        whites_update(a.drop_last(), i, c);
    }
}

/// What the search knows: `stack` is the walk of gray nodes that led to where
/// it stands, and from a black node edges lead only to black nodes that were
/// finished before it.
spec fn search_state(
    nodes: Seq<DagNodeView>,
    color: Seq<Color>,
    stack: Seq<usize>,
    rank: Seq<int>,
    clock: int,
) -> bool {
    &&& color.len() == nodes.len()
    &&& rank.len() == nodes.len()
    &&& stack.no_duplicates()
    &&& walk(nodes, stack)
    &&& forall|i: int| 0 <= i < stack.len() ==> (#[trigger] stack[i]) < nodes.len()
    &&& forall|u: usize|
        u < nodes.len() ==> (#[trigger] color[u as int] is Gray <==> stack.contains(u))
    &&& forall|u: int| 0 <= u < nodes.len() && #[trigger] color[u] is Black ==> rank[u] < clock
    &&& forall|u: usize, v: usize| #[trigger]
        edge(nodes, u, v) && color[u as int] is Black ==> color[v as int] is Black && rank[v as int]
            < rank[u as int]
}

/// The cycle that an edge from the end of `stack` back into it closes.
fn back_edge(stack: &Vec<usize>, dep: usize, Ghost(ns): Ghost<Seq<DagNodeView>>) -> (r: Vec<usize>)
    requires
        walk(ns, stack@),
        stack@.no_duplicates(),
        stack@.contains(dep),
        edge(ns, stack@.last(), dep),
    ensures
        closed_walk(ns, r@),
        r@.drop_last().no_duplicates(),
{
    let mut start: usize = 0;
    let ghost at = stack@.index_of(dep);
    while stack[start] != dep
        invariant
            start <= at < stack.len(),
            stack@[at] == dep,
        decreases at - start,
    {
        start = start + 1;
    }
    let mut cycle: Vec<usize> = Vec::new();
    let mut i: usize = start;
    while i < stack.len()
        invariant
            start <= i <= stack.len(),
            cycle@ == stack@.subrange(start as int, i as int),
        decreases stack.len() - i,
    {
        cycle.push(stack[i]);
        proof {
            assert(stack@.subrange(start as int, i + 1) =~= stack@.subrange(
                start as int,
                i as int,
            ).push(stack@[i as int]));
        }
        i = i + 1;
    }
    cycle.push(dep);
    proof {
        let w = cycle@;
        let part = stack@.subrange(start as int, stack@.len() as int);
        assert(w =~= part.push(dep));
        assert(w.drop_last() =~= part);
        assert(part.no_duplicates());
        assert forall|j: int| 0 <= j < w.len() - 1 implies edge(ns, #[trigger] w[j], w[j + 1]) by {
            if j < part.len() - 1 {
                assert(w[j] == stack@[start + j]);
                assert(w[j + 1] == stack@[start + j + 1]);
                assert(edge(ns, stack@[start + j], stack@[start + j + 1]));
            } else {
                assert(w[j] == stack@.last());
                assert(w[j + 1] == dep);
            }
        }
    }
    cycle
}

/// Search from `node`: `None`, or the nodes of a cycle.
fn visit(
    node: usize,
    nodes: &Vec<DagNode>,
    color: &mut Vec<Color>,
    stack: &mut Vec<usize>,
    rank: &mut Ghost<Seq<int>>,
    clock: &mut Ghost<int>,
) -> (r: Option<Vec<usize>>)
    requires
        edges_valid(node_views(nodes@)),
        search_state(node_views(nodes@), old(color)@, old(stack)@, old(rank)@, old(clock)@),
        node < nodes.len(),
        old(color)@[node as int] is White,
        old(stack)@.len() > 0 ==> edge(node_views(nodes@), old(stack)@.last(), node),
    ensures
        match r {
            None => {
                &&& search_state(
                    node_views(nodes@),
                    final(color)@,
                    final(stack)@,
                    final(rank)@,
                    final(clock)@,
                )
                &&& final(stack)@ == old(stack)@
                &&& final(color)@[node as int] is Black
                &&& forall|u: int|
                    0 <= u < nodes.len() && !(#[trigger] old(color)@[u] is White)
                        ==> final(color)@[u] == old(color)@[u]
            },
            Some(w) => closed_walk(node_views(nodes@), w@) && w@.drop_last().no_duplicates(),
        },
    decreases whites(old(color)@),
{
    let ghost ns = node_views(nodes@);
    let ghost color0 = color@;
    let ghost stack0 = stack@;
    color.set(node, Color::Gray);
    stack.push(node);
    proof {
        whites_update(color0, node as int, Color::Gray);
        assert(!stack0.contains(node)) by {
            assert(!(color0[node as int] is Gray));
        }
        assert(stack@.no_duplicates());
        assert forall|i: int| 0 <= i < stack@.len() - 1 implies edge(
            ns,
            #[trigger] stack@[i],
            stack@[i + 1],
        ) by {
            if i < stack0.len() - 1 {
                assert(edge(ns, stack0[i], stack0[i + 1]));
            }
        }
        assert forall|u: usize| u < ns.len() implies (#[trigger] color@[u as int] is Gray
            <==> stack@.contains(u)) by {
            if u != node {
                assert(color@[u as int] == color0[u as int]);
                if stack@.contains(u) {
                    let i = stack@.index_of(u);
                    assert(stack0[i] == u);
                }
                if stack0.contains(u) {
                    let i = stack0.index_of(u);
                    assert(stack@[i] == u);
                }
            } else {
                assert(stack@[stack@.len() - 1] == node);
            }
        }
    }
    let ghost stack1 = stack@;
    let ghost color1 = color@;
    let mut k: usize = 0;
    while k < nodes[node as usize].deps.len()
        invariant
            ns == node_views(nodes@),
            edges_valid(ns),
            node < nodes.len(),
            k <= nodes[node as int].deps.len(),
            search_state(ns, color@, stack@, rank@, clock@),
            stack@ == stack1,
            stack1 == stack0.push(node),
            color@.len() == color1.len(),
            color1.len() == nodes.len(),
            color1 == color0.update(node as int, Color::Gray),
            color0.len() == nodes.len(),
            color0[node as int] is White,
            whites(color1) < whites(color0),
            whites(color0) == whites(old(color)@),
            forall|u: int|
                0 <= u < nodes.len() && !(#[trigger] color1[u] is White) ==> color@[u] == color1[u],
            forall|j: int|
                0 <= j < k ==> color@[#[trigger] ns[node as int].deps[j] as int] is Black,
        decreases nodes[node as int].deps.len() - k,
    {
        let dep: usize = nodes[node].deps[k];
        proof {
            assert(ns[node as int].deps[k as int] == dep);
            assert(edge(ns, node, dep));
        }
        match color[dep] {
            Color::Gray => {
                proof {
                    assert(stack@.contains(dep));
                    assert(stack@.last() == node);
                }
                return Some(back_edge(stack, dep, Ghost(ns)));
            },
            Color::White => {
                let ghost before = color@;
                proof {
                    whites_monotone(color1, color@);
                    assert(stack@.last() == node);
                }
                match visit(dep, nodes, color, stack, rank, clock) {
                    Some(w) => {
                        return Some(w);
                    },
                    None => {
                        proof {
                            assert forall|j: int| 0 <= j < k + 1 implies color@[
                                #[trigger] ns[node as int].deps[j] as int
                            ] is Black by {
                                if j < k {
                                    assert(before[ns[node as int].deps[j] as int] is Black);
                                }
                            }
                            assert forall|u: int|
                                0 <= u < nodes.len() && !(#[trigger] color1[u] is White) implies color@[u]
                                == color1[u] by {
                                assert(before[u] == color1[u]);
                            }
                        }
                    },
                }
            },
            Color::Black => {},
        }
        k = k + 1;
    }
    let ghost rank1 = rank@;
    let ghost color2 = color@;
    stack.pop();
    color.set(node, Color::Black);
    proof {
        assert(stack@ =~= stack0);
        *rank = Ghost(rank1.update(node as int, clock@));
        *clock = Ghost(clock@ + 1);
        assert(color1[node as int] is Gray);
        assert(color2[node as int] is Gray);
        assert forall|i: int| 0 <= i < stack@.len() - 1 implies edge(
            ns,
            #[trigger] stack@[i],
            stack@[i + 1],
        ) by {
            assert(edge(ns, stack1[i], stack1[i + 1]));
        }
        assert forall|u: usize| u < ns.len() implies (#[trigger] color@[u as int] is Gray
            <==> stack@.contains(u)) by {
            if u == node {
                assert(!stack0.contains(node)) by {
                    if stack0.contains(node) {
                        let i = stack0.index_of(node);
                        assert(stack1[i] == stack1[stack0.len() as int]);
                    }
                }
            } else {
                assert(color2[u as int] == color@[u as int]);
                if stack@.contains(u) {
                    let i = stack@.index_of(u);
                    assert(stack1[i] == u);
                }
                if stack1.contains(u) {
                    let i = stack1.index_of(u);
                    assert(stack0[i] == u);
                }
            }
        }
        assert forall|u: usize, v: usize| #[trigger]
            edge(ns, u, v) && color@[u as int] is Black implies color@[v as int] is Black && rank@[v as int]
            < rank@[u as int] by {
            if u == node {
                let j = ns[u as int].deps.index_of(v);
                assert(ns[node as int].deps[j] == v);
                assert(color2[v as int] is Black);
                assert(v != node);
            } else {
                assert(color2[u as int] is Black);
                assert(color2[v as int] is Black);
                assert(v != node);
            }
        }
        assert forall|u: int| 0 <= u < nodes.len() && !(#[trigger] color0[u] is White) implies color@[u]
            == color0[u] by {
            assert(u != node);
            assert(color1[u] == color0[u]);
            assert(color2[u] == color1[u]);
        }
    }
    None
}

/// Look for a cycle: `Ok` where there is none, and one that there is as the
/// error.
pub fn detect_cycle(nodes: &Vec<DagNode>) -> (r: Result<(), DagError>)
    requires
        edges_valid(node_views(nodes@)),
    ensures
        r is Ok <==> !cyclic(node_views(nodes@)),
        r matches Err(e) ==> e@ matches DagErrorView::Cycle { involved } && names_cycle(
            node_views(nodes@),
            involved,
        ),
{
    let ghost ns = node_views(nodes@);
    let mut color: Vec<Color> = Vec::new();
    let mut i: usize = 0;
    while i < nodes.len()
        invariant
            i <= nodes.len(),
            color@.len() == i,
            forall|u: int| 0 <= u < i ==> #[trigger] color@[u] is White,
        decreases nodes.len() - i,
    {
        color.push(Color::White);
        i = i + 1;
    }
    let mut stack: Vec<usize> = Vec::new();
    let mut rank: Ghost<Seq<int>> = Ghost(Seq::new(nodes@.len(), |u: int| 0));
    let mut clock: Ghost<int> = Ghost(0);
    i = 0;
    while i < nodes.len()
        invariant
            ns == node_views(nodes@),
            edges_valid(ns),
            i <= nodes.len(),
            search_state(ns, color@, stack@, rank@, clock@),
            stack@.len() == 0,
            forall|u: int| 0 <= u < i ==> #[trigger] color@[u] is Black,
        decreases nodes.len() - i,
    {
        match color[i] {
            Color::White => {
                let ghost before = color@;
                match visit(i, nodes, &mut color, &mut stack, &mut rank, &mut clock) {
                    Some(w) => {
                        let mut involved: Vec<String> = Vec::new();
                        let mut j: usize = 0;
                        while j < w.len()
                            invariant
                                ns == node_views(nodes@),
                                closed_walk(ns, w@),
                                j <= w.len(),
                                involved@.len() == j,
                                forall|m: int|
                                    0 <= m < j ==> (#[trigger] involved@[m])@ == ns[w@[m] as int].id,
                            decreases w.len() - j,
                        {
                            proof {
                                if j < w@.len() - 1 {
                                    assert(edge(ns, w@[j as int], w@[j + 1]));
                                } else {
                                    assert(edge(ns, w@[j - 1], w@[j - 1 + 1]));
                                }
                            }
                            involved.push(nodes[w[j]].id.clone());
                            j = j + 1;
                        }
                        proof {
                            assert(text::texts(involved@) =~= walk_ids(ns, w@));
                        }
                        return Err(DagError::Cycle { involved });
                    },
                    None => {
                        proof {
                            assert forall|u: int| 0 <= u < i + 1 implies #[trigger] color@[u] is Black by {
                                if u < i {
                                    assert(before[u] is Black);
                                }
                            }
                        }
                    },
                }
            },
            Color::Gray => {
                proof {
                    assert(stack@.contains(i));
                }
            },
            Color::Black => {},
        }
        i = i + 1;
    }
    proof {
        ranked_is_acyclic(ns, rank@);
    }
    Ok(())
}

// ---------------------------------------------------------------------
// The graph
// ---------------------------------------------------------------------

/// The last index below `upto` at which `id` stands in `ids`.
fn find_last(ids: &Vec<String>, id: &str, upto: usize) -> (r: Option<usize>)
    requires
        upto <= ids.len(),
    ensures
        r == last_index(text::texts(ids@).take(upto as int), id@),
        r matches Some(i) ==> i < upto,
{
    let ghost all = text::texts(ids@);
    let mut i: usize = upto;
    while i > 0
        invariant
            all == text::texts(ids@),
            i <= upto <= ids.len(),
            last_index(all.take(upto as int), id@) == last_index(all.take(i as int), id@),
        decreases i,
    {
        proof {
            assert(all.take(i as int).drop_last() =~= all.take(i - 1));
            assert(all.take(i as int).last() == ids@[i - 1]@);
        }
        if text::same(ids[i - 1].as_str(), id) {
            return Some(i - 1);
        }
        i = i - 1;
    }
    None
}

/// The indices of the ids in `refs`, or the first of `refs` that is no id.
fn resolve(ids: &Vec<String>, refs: &Vec<String>) -> (r: Result<Vec<usize>, String>)
    ensures
        match resolved(text::texts(ids@), text::texts(refs@)) {
            Ok(v) => r matches Ok(x) && x@ == v,
            Err(e) => r matches Err(x) && x@ == e,
        },
        r matches Ok(x) ==> forall|k: int| 0 <= k < x@.len() ==> #[trigger] x@[k] < ids.len(),
{
    let ghost known = text::texts(ids@);
    let ghost all = text::texts(refs@);
    let mut out: Vec<usize> = Vec::new();
    let mut i: usize = 0;
    proof {
        assert(all.take(0) =~= Seq::<Seq<char>>::empty());
        assert(known.take(known.len() as int) =~= known);
    }
    while i < refs.len()
        invariant
            known == text::texts(ids@),
            known.take(known.len() as int) == known,
            all == text::texts(refs@),
            i <= refs.len(),
            resolved(known, all.take(i as int)) == Ok::<Seq<usize>, Seq<char>>(out@),
            forall|k: int| 0 <= k < out@.len() ==> #[trigger] out@[k] < ids.len(),
        decreases refs.len() - i,
    {
        proof {
            assert(all.take(i + 1).drop_last() =~= all.take(i as int));
            assert(all.take(i + 1).last() == refs@[i as int]@);
        }
        match find_last(ids, refs[i].as_str(), ids.len()) {
            Some(k) => {
                out.push(k);
            },
            None => {
                let bad: String = refs[i].clone();
                proof {
                    unresolved_stays(known, all, i + 1);
                }
                return Err(bad);
            },
        }
        i = i + 1;
    }
    proof {
        assert(all.take(all.len() as int) =~= all);
    }
    Ok(out)
}

/// A reference that is no id is the error whatever follows it.
proof fn unresolved_stays(ids: Seq<Seq<char>>, refs: Seq<Seq<char>>, n: int)
    requires
        0 <= n <= refs.len(),
        resolved(ids, refs.take(n)) is Err,
    ensures
        resolved(ids, refs) == resolved(ids, refs.take(n)),
    decreases refs.len() - n,
{
    if n < refs.len() {
        assert(refs.take(n + 1).drop_last() =~= refs.take(n));
        unresolved_stays(ids, refs, n + 1);
    } else {
        assert(refs.take(n) =~= refs);
    }
}

/// A task whose node cannot be built is the error whatever follows it.
proof fn task_error_stays(flats: Seq<FlatView>, n: nat, m: nat)
    requires
        n <= m,
        task_nodes(flats, n) is Err,
    ensures
        task_nodes(flats, m) == task_nodes(flats, n),
    decreases m,
{
    if n < m {
        task_error_stays(flats, n, (m - 1) as nat);
    }
}

/// The result that a graph of these nodes, or this error, calls for.
pub open spec fn graph_result(
    r: Result<Dag, DagError>,
    granularity: Granularity,
    nodes: Result<Seq<DagNodeView>, DagErrorView>,
) -> bool {
    match nodes {
        Err(e) => r matches Err(x) && x@ == e,
        Ok(ns) => if cyclic(ns) {
            r matches Err(x) && x@ matches DagErrorView::Cycle { involved } && names_cycle(
                ns,
                involved,
            )
        } else {
            r matches Ok(dag) && dag.granularity == granularity && node_views(dag.nodes@) == ns
        },
    }
}

/// The granularity of the first section that sets one.
pub fn pick_granularity(sections: &[AnnotatedSection]) -> (r: Granularity)
    ensures
        r == picked_granularity(annotated_views(sections@)),
{
    let ghost all = annotated_views(sections@);
    let mut i: usize = 0;
    proof {
        assert(all.skip(0) =~= all);
    }
    while i < sections.len()
        invariant
            all == annotated_views(sections@),
            i <= sections.len(),
            picked_granularity(all) == picked_granularity(all.skip(i as int)),
        decreases sections.len() - i,
    {
        proof {
            assert(all.skip(i as int).drop_first() =~= all.skip(i + 1));
            assert(all.skip(i as int)[0] == sections@[i as int]@);
        }
        match sections[i].annotations.granularity {
            Some(g) => {
                return g;
            },
            None => {},
        }
        i = i + 1;
    }
    Granularity::Section
}

/// Whether no section names the one with this id as its parent.
fn has_no_children(sections: &[AnnotatedSection], id: &str) -> (r: bool)
    ensures
        r == forall|k: int|
            0 <= k < sections@.len() ==> (#[trigger] annotated_views(
                sections@,
            )[k]).section.parent != Some(id@),
{
    let ghost all = annotated_views(sections@);
    let mut k: usize = 0;
    while k < sections.len()
        invariant
            all == annotated_views(sections@),
            k <= sections.len(),
            forall|m: int| 0 <= m < k ==> (#[trigger] all[m]).section.parent != Some(id@),
        decreases sections.len() - k,
    {
        proof {
            assert(all[k as int] == sections@[k as int]@);
        }
        match &sections[k].section.parent {
            Some(parent) => {
                if text::same(parent.as_str(), id) {
                    return false;
                }
            },
            None => {},
        }
        k = k + 1;
    }
    true
}

/// Which sections are leaves, and how many leaves stand before each section.
spec fn leaves_marked(
    sections: Seq<AnnotatedSectionView>,
    leaf: Seq<bool>,
    number: Seq<usize>,
) -> bool {
    &&& leaf.len() == sections.len()
    &&& number.len() == sections.len()
    &&& forall|k: int|
        0 <= k < sections.len() ==> #[trigger] leaf[k] == is_leaf(sections, sections[k])
    &&& forall|k: int|
        0 <= k < sections.len() ==> #[trigger] number[k] == leaves_before(sections, k as nat)
}

/// Find out which sections are leaves, and how many stand before each section.
fn mark_leaves(list: &[AnnotatedSection]) -> (r: (Vec<bool>, Vec<usize>))
    ensures
        leaves_marked(annotated_views(list@), r.0@, r.1@),
{
    let ghost all = annotated_views(list@);
    let mut leaf: Vec<bool> = Vec::new();
    let mut number: Vec<usize> = Vec::new();
    let mut count: usize = 0;
    let mut i: usize = 0;
    while i < list.len()
        invariant
            all == annotated_views(list@),
            i <= list.len(),
            count <= i,
            count == leaves_before(all, i as nat),
            leaf@.len() == i,
            number@.len() == i,
            forall|k: int| 0 <= k < i ==> #[trigger] leaf@[k] == is_leaf(all, all[k]),
            forall|k: int| 0 <= k < i ==> #[trigger] number@[k] == leaves_before(all, k as nat),
        decreases list.len() - i,
    {
        proof {
            assert(all[i as int] == list@[i as int]@);
        }
        let found: bool = has_no_children(list, list[i].section.id.as_str());
        leaf.push(found);
        number.push(count);
        if found {
            count = count + 1;
        }
        i = i + 1;
    }
    (leaf, number)
}

/// Whether a section stands below the heading with this id.
fn stands_below(s: &AnnotatedSection, id: &str) -> (r: bool)
    ensures
        r == below(s@, id@),
{
    match &s.section.parent {
        None => false,
        Some(parent) => {
            if text::same(parent.as_str(), id) {
                return true;
            }
            let mut start: String = text::owned(id);
            start.append(".");
            text::starts_with(parent.as_str(), start.as_str())
        },
    }
}

/// The nodes that section `j` stands for.
fn stand_for(list: &[AnnotatedSection], leaf: &Vec<bool>, number: &Vec<usize>, j: usize) -> (r: Vec<
    usize,
>)
    requires
        j < list.len(),
        leaves_marked(annotated_views(list@), leaf@, number@),
    ensures
        r@ == standing_for(annotated_views(list@), j as int),
{
    let ghost all = annotated_views(list@);
    let mut out: Vec<usize> = Vec::new();
    proof {
        assert(all[j as int] == list@[j as int]@);
        assert(leaf@[j as int] == is_leaf(all, all[j as int]));
        assert(number@[j as int] == leaves_before(all, j as nat));
    }
    if leaf[j] {
        out.push(number[j]);
        proof {
            assert(out@ =~= standing_for(all, j as int));
        }
        return out;
    }
    let id: &str = list[j].section.id.as_str();
    let mut k: usize = 0;
    while k < list.len()
        invariant
            all == annotated_views(list@),
            leaves_marked(all, leaf@, number@),
            k <= list.len(),
            out@ == leaves_below(all, id@, k as nat),
        decreases list.len() - k,
    {
        proof {
            assert(all[k as int] == list@[k as int]@);
            assert(leaf@[k as int] == is_leaf(all, all[k as int]));
            assert(number@[k as int] == leaves_before(all, k as nat));
        }
        if leaf[k] && stands_below(&list[k], id) {
            out.push(number[k]);
        }
        k = k + 1;
    }
    out
}

/// List the numbers of `more` that are not listed yet.
fn unite(listed: &mut Vec<usize>, more: &Vec<usize>)
    ensures
        final(listed)@ == united(old(listed)@, more@),
{
    let ghost first = listed@;
    let mut i: usize = 0;
    proof {
        assert(more@.take(0) =~= Seq::<usize>::empty());
    }
    while i < more.len()
        invariant
            i <= more.len(),
            listed@ == united(first, more@.take(i as int)),
        decreases more.len() - i,
    {
        let n: usize = more[i];
        let mut k: usize = 0;
        let mut found: bool = false;
        while k < listed.len() && !found
            invariant
                k <= listed.len(),
                found ==> listed@.contains(n),
                !found ==> forall|m: int| 0 <= m < k ==> #[trigger] listed@[m] != n,
            decreases listed.len() - k + (if found {
                0int
            } else {
                1int
            }),
        {
            if listed[k] == n {
                found = true;
            }
            k = k + 1;
        }
        proof {
            assert(more@.take(i + 1).drop_last() =~= more@.take(i as int));
        }
        if !found {
            listed.push(n);
        }
        i = i + 1;
    }
    proof {
        assert(more@.take(more@.len() as int) =~= more@);
    }
}

/// The nodes that section `i` waits for where it depends on the sections `ts`.
fn depend_on(
    list: &[AnnotatedSection],
    leaf: &Vec<bool>,
    number: &Vec<usize>,
    waits: &Vec<Vec<usize>>,
    i: usize,
    ts: &Vec<usize>,
) -> (r: Vec<usize>)
    requires
        i < list.len(),
        leaves_marked(annotated_views(list@), leaf@, number@),
        waits@.len() == i,
        forall|k: int|
            0 <= k < i ==> (#[trigger] waits@[k])@ == waited_for(annotated_views(list@), k as nat),
        forall|k: int| 0 <= k < ts@.len() ==> #[trigger] ts@[k] < list@.len(),
    ensures
        r@ == depended_on(annotated_views(list@), i as nat, ts@),
{
    let ghost all = annotated_views(list@);
    let mut out: Vec<usize> = Vec::new();
    let mut k: usize = 0;
    proof {
        assert(ts@.take(0) =~= Seq::<usize>::empty());
    }
    while k < ts.len()
        invariant
            all == annotated_views(list@),
            i < list.len(),
            leaves_marked(all, leaf@, number@),
            waits@.len() == i,
            forall|m: int| 0 <= m < i ==> (#[trigger] waits@[m])@ == waited_for(all, m as nat),
            forall|m: int| 0 <= m < ts@.len() ==> #[trigger] ts@[m] < list@.len(),
            k <= ts.len(),
            out@ == depended_on(all, i as nat, ts@.take(k as int)),
        decreases ts.len() - k,
    {
        let j: usize = ts[k];
        proof {
            assert(ts@.take(k + 1).drop_last() =~= ts@.take(k as int));
            assert(ts@.take(k + 1).last() == j);
            assert(all[i as int] == list@[i as int]@);
            assert(all[j as int] == list@[j as int]@);
            assert(leaf@[j as int] == is_leaf(all, all[j as int]));
        }
        if j < i && !leaf[j] && stands_below(&list[i], list[j].section.id.as_str()) {
            unite(&mut out, &waits[j]);
        } else {
            let mut nodes: Vec<usize> = stand_for(list, leaf, number, j);
            out.append(&mut nodes);
        }
        k = k + 1;
    }
    proof {
        assert(ts@.take(ts@.len() as int) =~= ts@);
    }
    out
}

/// The nodes that the sections `ts` stand for.
fn all_stand_for(
    list: &[AnnotatedSection],
    leaf: &Vec<bool>,
    number: &Vec<usize>,
    ts: &Vec<usize>,
) -> (r: Vec<usize>)
    requires
        leaves_marked(annotated_views(list@), leaf@, number@),
        forall|k: int| 0 <= k < ts@.len() ==> #[trigger] ts@[k] < list@.len(),
    ensures
        r@ == all_standing_for(annotated_views(list@), ts@),
{
    let ghost all = annotated_views(list@);
    let mut out: Vec<usize> = Vec::new();
    let mut k: usize = 0;
    proof {
        assert(ts@.take(0) =~= Seq::<usize>::empty());
    }
    while k < ts.len()
        invariant
            all == annotated_views(list@),
            leaves_marked(all, leaf@, number@),
            forall|m: int| 0 <= m < ts@.len() ==> #[trigger] ts@[m] < list@.len(),
            k <= ts.len(),
            out@ == all_standing_for(all, ts@.take(k as int)),
        decreases ts.len() - k,
    {
        proof {
            assert(ts@.take(k + 1).drop_last() =~= ts@.take(k as int));
        }
        let mut nodes: Vec<usize> = stand_for(list, leaf, number, ts[k]);
        out.append(&mut nodes);
        k = k + 1;
    }
    proof {
        assert(ts@.take(ts@.len() as int) =~= ts@);
    }
    out
}

/// Fewer leaves stand before a leaf than there are.
proof fn leaves_are_counted(sections: Seq<AnnotatedSectionView>, j: nat, n: nat)
    requires
        j <= n,
    ensures
        leaves_before(sections, j) <= leaves_before(sections, n) <= n,
        j < n && is_leaf(sections, sections[j as int]) ==> leaves_before(sections, j)
            < leaves_before(sections, n),
    decreases n,
{
    if j < n {
        leaves_are_counted(sections, j, (n - 1) as nat);
    } else if n > 0 {
        leaves_are_counted(sections, (j - 1) as nat, (n - 1) as nat);
    }
}

/// There is one node for each leaf.
proof fn leaf_nodes_are_counted(sections: Seq<AnnotatedSectionView>, n: nat)
    ensures
        leaf_nodes(sections, n).len() == leaves_before(sections, n),
    decreases n,
{
    if n > 0 {
        leaf_nodes_are_counted(sections, (n - 1) as nat);
    }
}

/// Every node in the list is one of the graph's.
spec fn all_nodes(sections: Seq<AnnotatedSectionView>, list: Seq<usize>) -> bool {
    forall|k: int|
        0 <= k < list.len() ==> #[trigger] list[k] < leaves_before(sections, sections.len())
}

/// A section stands for nodes of the graph.
proof fn standing_for_nodes(sections: Seq<AnnotatedSectionView>, j: int)
    requires
        0 <= j < sections.len() <= usize::MAX,
    ensures
        all_nodes(sections, standing_for(sections, j)),
{
    leaves_are_counted(sections, j as nat, sections.len());
    leaves_below_are_nodes(sections, sections[j].section.id, sections.len());
}

/// The leaves below a heading are nodes of the graph.
proof fn leaves_below_are_nodes(sections: Seq<AnnotatedSectionView>, id: Seq<char>, n: nat)
    requires
        n <= sections.len() <= usize::MAX,
    ensures
        all_nodes(sections, leaves_below(sections, id, n)),
    decreases n,
{
    if n > 0 {
        leaves_below_are_nodes(sections, id, (n - 1) as nat);
        leaves_are_counted(sections, (n - 1) as nat, sections.len());
    }
}

/// The last index of an id is one of the list's, and there is one exactly where
/// the list holds the id.
proof fn last_index_is_known(ids: Seq<Seq<char>>, id: Seq<char>)
    requires
        ids.len() <= usize::MAX,
    ensures
        last_index(ids, id) matches Some(i) ==> i < ids.len() && ids[i as int] == id,
        last_index(ids, id) is Some <==> ids.contains(id),
    decreases ids.len(),
{
    if ids.len() > 0 {
        last_index_is_known(ids.drop_last(), id);
        if ids.last() == id {
            assert(ids[ids.len() - 1] == id);
        } else if ids.contains(id) {
            let k = choose|k: int| 0 <= k < ids.len() && ids[k] == id;
            assert(ids.drop_last()[k] == id);
        } else {
            assert forall|k: int| 0 <= k < ids.drop_last().len() implies ids.drop_last()[k]
                != id by {
                assert(ids[k] != id);
            }
        }
    }
}

/// References lead to sections.
proof fn targets_are_sections(ids: Seq<Seq<char>>, refs: Seq<Seq<char>>)
    requires
        ids.len() <= usize::MAX,
    ensures
        resolved(ids, refs) matches Ok(ts) ==> ts.len() == refs.len() && forall|k: int|
            0 <= k < ts.len() ==> #[trigger] ts[k] < ids.len(),
    decreases refs.len(),
{
    if refs.len() > 0 {
        targets_are_sections(ids, refs.drop_last());
        last_index_is_known(ids, refs.last());
    }
}

/// What is united with nodes is nodes.
proof fn united_are_nodes(sections: Seq<AnnotatedSectionView>, listed: Seq<usize>, more: Seq<usize>)
    requires
        all_nodes(sections, listed),
        all_nodes(sections, more),
    ensures
        all_nodes(sections, united(listed, more)),
    decreases more.len(),
{
    if more.len() > 0 {
        assert forall|k: int| 0 <= k < more.drop_last().len() implies #[trigger] more.drop_last()[k]
            < leaves_before(sections, sections.len()) by {
            assert(more[k] < leaves_before(sections, sections.len()));
        }
        united_are_nodes(sections, listed, more.drop_last());
        assert(more[more.len() - 1] < leaves_before(sections, sections.len()));
    }
}

/// A section waits for nodes of the graph.
proof fn waited_for_are_nodes(sections: Seq<AnnotatedSectionView>, i: nat)
    requires
        i < sections.len() <= usize::MAX,
    ensures
        all_nodes(sections, waited_for(sections, i)),
    decreases i, targets(sections, sections[i as int].annotations.depends).len() + 1,
{
    let depends = sections[i as int].annotations.depends;
    if depends.len() > 0 {
        targets_are_sections(section_ids(sections), depends);
        depended_on_are_nodes(sections, i, targets(sections, depends));
    } else if i > 0 {
        if is_leaf(sections, sections[i - 1]) {
            standing_for_nodes(sections, i - 1);
        } else {
            waited_for_are_nodes(sections, (i - 1) as nat);
        }
    }
}

/// What a section depends on are nodes of the graph.
proof fn depended_on_are_nodes(sections: Seq<AnnotatedSectionView>, i: nat, ts: Seq<usize>)
    requires
        i < sections.len() <= usize::MAX,
        forall|k: int| 0 <= k < ts.len() ==> #[trigger] ts[k] < sections.len(),
    ensures
        all_nodes(sections, depended_on(sections, i, ts)),
    decreases i, ts.len(),
{
    if ts.len() > 0 {
        let j = ts.last();
        assert(ts[ts.len() - 1] < sections.len());
        assert forall|k: int| 0 <= k < ts.drop_last().len() implies #[trigger] ts.drop_last()[k]
            < sections.len() by {
            assert(ts[k] < sections.len());
        }
        depended_on_are_nodes(sections, i, ts.drop_last());
        if under_heading(sections, i, j as int) {
            waited_for_are_nodes(sections, j as nat);
            united_are_nodes(
                sections,
                depended_on(sections, i, ts.drop_last()),
                waited_for(sections, j as nat),
            );
        } else {
            standing_for_nodes(sections, j as int);
        }
    }
}

/// Every edge of the leaf sections' nodes leads to one of them.
proof fn leaf_edges_are_valid(sections: Seq<AnnotatedSectionView>, n: nat)
    requires
        n <= sections.len() <= usize::MAX,
    ensures
        forall|u: int|
            0 <= u < leaf_nodes(sections, n).len() ==> all_nodes(
                sections,
                (#[trigger] leaf_nodes(sections, n)[u]).deps,
            ),
    decreases n,
{
    if n > 0 {
        leaf_edges_are_valid(sections, (n - 1) as nat);
        waited_for_are_nodes(sections, (n - 1) as nat);
    }
}

/// An unknown reference is the error whatever follows it.
proof fn unknown_stays(sections: Seq<AnnotatedSectionView>, n: nat, m: nat)
    requires
        n <= m,
        first_unknown(sections, n) is Some,
    ensures
        first_unknown(sections, m) == first_unknown(sections, n),
    decreases m,
{
    if n < m {
        unknown_stays(sections, n, (m - 1) as nat);
    }
}

/// One node per leaf section.
fn build_section_dag(list: &[AnnotatedSection]) -> (r: Result<Dag, DagError>)
    ensures
        graph_result(r, Granularity::Section, section_nodes(annotated_views(list@))),
        r matches Ok(dag) ==> sound(node_views(dag.nodes@)),
        (r matches Err(e) && e@ is UnknownRef) <==> exists|i: int, k: int| #[trigger]
            unknown_at(annotated_views(list@), i, k),
        (r matches Err(e) && e@ is UnknownRef) ==> names_first_unknown(
            annotated_views(list@),
            r->Err_0@,
        ),
{
    let ghost all = annotated_views(list@);
    let mut ids: Vec<String> = Vec::new();
    let mut i: usize = 0;
    while i < list.len()
        invariant
            all == annotated_views(list@),
            i <= list.len(),
            ids@.len() == i,
            forall|k: int| 0 <= k < i ==> (#[trigger] ids@[k])@ == all[k].section.id,
        decreases list.len() - i,
    {
        ids.push(list[i].section.id.clone());
        i = i + 1;
    }
    let (leaf, number) = mark_leaves(list);
    let mut waits: Vec<Vec<usize>> = Vec::new();
    let mut nodes: Vec<DagNode> = Vec::new();
    i = 0;
    proof {
        assert(text::texts(ids@) =~= section_ids(all));
        assert(node_views(nodes@) =~= Seq::<DagNodeView>::empty());
        unknown_references_are_rejected(all);
    }
    while i < list.len()
        invariant
            all == annotated_views(list@),
            text::texts(ids@) == section_ids(all),
            ids@.len() == all.len(),
            leaves_marked(all, leaf@, number@),
            (section_nodes(all) matches Err(e) && e is UnknownRef) <==> exists|i: int, k: int|
                #[trigger]
                unknown_at(all, i, k),
            (section_nodes(all) matches Err(e) && e is UnknownRef) ==> names_first_unknown(
                all,
                section_nodes(all)->Err_0,
            ),
            i <= list.len(),
            first_unknown(all, i as nat) is None,
            waits@.len() == i,
            forall|k: int| 0 <= k < i ==> (#[trigger] waits@[k])@ == waited_for(all, k as nat),
            node_views(nodes@) == leaf_nodes(all, i as nat),
        decreases list.len() - i,
    {
        let sec: &AnnotatedSection = &list[i];
        let ghost before = node_views(nodes@);
        proof {
            assert(all[i as int] == sec@);
            assert(leaf@[i as int] == is_leaf(all, all[i as int]));
            if i > 0 {
                assert(leaf@[i - 1] == is_leaf(all, all[i - 1]));
            }
        }
        let depends: Vec<usize> = match resolve(&ids, &sec.annotations.depends) {
            Ok(v) => v,
            Err(to) => {
                let e = DagError::UnknownRef { from: sec.section.id.clone(), to, kind: "depends" };
                proof {
                    unknown_stays(all, (i + 1) as nat, all.len());
                }
                return Err(e);
            },
        };
        let parallel: Vec<usize> = match resolve(&ids, &sec.annotations.parallel_with) {
            Ok(v) => v,
            Err(to) => {
                let e = DagError::UnknownRef {
                    from: sec.section.id.clone(),
                    to,
                    kind: "parallel-with",
                };
                proof {
                    unknown_stays(all, (i + 1) as nat, all.len());
                }
                return Err(e);
            },
        };
        let wait: Vec<usize> = if sec.annotations.depends.len() > 0 {
            depend_on(list, &leaf, &number, &waits, i, &depends)
        } else if i == 0 {
            Vec::new()
        } else if leaf[i - 1] {
            stand_for(list, &leaf, &number, i - 1)
        } else {
            waits[i - 1].clone()
        };
        proof {
            assert(wait@ =~= waited_for(all, i as nat));
        }
        if leaf[i] {
            let node = DagNode {
                id: sec.section.id.clone(),
                label: sec.section.title.clone(),
                deps: wait.clone(),
                parallel_with: all_stand_for(list, &leaf, &number, &parallel),
                prompt_template: sec.annotations.prompt_template.clone(),
                source_line: sec.section.line,
            };
            let ghost added = node@;
            nodes.push(node);
            proof {
                assert(added.deps =~= wait@);
                assert(added == section_node(all, i as int));
                assert(node_views(nodes@) =~= before.push(added));
            }
        }
        waits.push(wait);
        i = i + 1;
    }
    proof {
        leaf_nodes_are_counted(all, all.len());
        leaf_edges_are_valid(all, all.len());
        let ns = node_views(nodes@);
        assert forall|u: int, k: int|
            #![trigger ns[u].deps[k]]
            0 <= u < ns.len() && 0 <= k < ns[u].deps.len() implies ns[u].deps[k] < ns.len() by {
            assert(all_nodes(all, leaf_nodes(all, all.len())[u].deps));
        }
    }
    if nodes.len() == 0 {
        return Err(DagError::Empty);
    }
    match detect_cycle(&nodes) {
        Ok(()) => Ok(Dag { granularity: Granularity::Section, nodes }),
        Err(e) => Err(e),
    }
}

/// A task, wherever it stands, with what its node needs.
#[derive(Debug, PartialEq)]
pub struct FlatTask {
    pub id: String,
    pub label: String,
    pub line: usize,
    pub needs: Vec<String>,
    pub section_id: String,
    pub made_up: bool,
    pub done: bool,
}

impl View for FlatTask {
    type V = FlatView;

    open spec fn view(&self) -> FlatView {
        FlatView {
            id: self.id@,
            label: self.label@,
            line: self.line as int,
            needs: text::texts(self.needs@),
            section_id: self.section_id@,
            made_up: self.made_up,
            done: self.done,
        }
    }
}

/// What the tasks of a list hold.
pub open spec fn flat_views(flats: Seq<FlatTask>) -> Seq<FlatView> {
    flats.map_values(|f: FlatTask| f@)
}

/// All tasks of all sections, in order.
pub fn flatten(sections: &[AnnotatedSection]) -> (r: Vec<FlatTask>)
    ensures
        flat_views(r@) == flat_tasks(annotated_views(sections@)),
{
    let ghost all = annotated_views(sections@);
    let mut flats: Vec<FlatTask> = Vec::new();
    let mut i: usize = 0;
    proof {
        assert(all.take(0) =~= Seq::<AnnotatedSectionView>::empty());
        assert(flat_views(flats@) =~= Seq::<FlatView>::empty());
    }
    while i < sections.len()
        invariant
            all == annotated_views(sections@),
            i <= sections.len(),
            flat_views(flats@) == flat_tasks(all.take(i as int)),
        decreases sections.len() - i,
    {
        let sec: &AnnotatedSection = &sections[i];
        let ghost before = flat_views(flats@);
        let mut k: usize = 0;
        while k < sec.items.len()
            invariant
                k <= sec.items.len(),
                flat_views(flats@) == flat_items(before, sec@, k as nat),
            decreases sec.items.len() - k,
        {
            let ghost so_far = flat_views(flats@);
            proof {
                assert(sec@.items[k as int] == sec.items@[k as int]@);
            }
            let made_up: bool = sec.items[k].task.id.as_str().is_empty();
            let id: String = if made_up {
                let mut id: String = sec.section.id.clone();
                id.append(".");
                let count: usize = flats.len();
                id.append(text::number(count as u128 + 1).as_str());
                id
            } else {
                sec.items[k].task.id.clone()
            };
            let flat = FlatTask {
                id,
                label: sec.items[k].task.text.clone(),
                line: sec.items[k].task.line_range.0,
                needs: text::owned_list(&sec.items[k].annotations.needs),
                section_id: sec.section.id.clone(),
                made_up,
                done: sec.items[k].task.done,
            };
            let ghost added = flat@;
            flats.push(flat);
            proof {
                assert(flat_views(flats@) =~= so_far.push(added));
                assert(added == flat_task(sec@, sec@.items[k as int], so_far.len()));
            }
            k = k + 1;
        }
        proof {
            assert(all.take(i + 1).drop_last() =~= all.take(i as int));
            assert(all.take(i + 1).last() == sec@);
        }
        i = i + 1;
    }
    proof {
        assert(all.take(all.len() as int) =~= all);
    }
    flats
}

/// One node per task.
fn build_task_dag(sections: &[AnnotatedSection]) -> (r: Result<Dag, DagError>)
    ensures
        graph_result(
            r,
            Granularity::Task,
            if flat_tasks(annotated_views(sections@)).len() == 0 {
                Err(DagErrorView::Empty)
            } else {
                task_nodes(
                    flat_tasks(annotated_views(sections@)),
                    flat_tasks(annotated_views(sections@)).len(),
                )
            },
        ),
        r matches Ok(dag) ==> sound(node_views(dag.nodes@)),
{
    let flats: Vec<FlatTask> = flatten(sections);
    if flats.len() == 0 {
        return Err(DagError::Empty);
    }
    let ghost all = flat_views(flats@);
    let mut ids: Vec<String> = Vec::new();
    let mut section_of: Vec<String> = Vec::new();
    let mut i: usize = 0;
    while i < flats.len()
        invariant
            all == flat_views(flats@),
            i <= flats.len(),
            ids@.len() == i,
            section_of@.len() == i,
            forall|k: int| 0 <= k < i ==> (#[trigger] ids@[k])@ == all[k].id,
            forall|k: int| 0 <= k < i ==> (#[trigger] section_of@[k])@ == all[k].section_id,
        decreases flats.len() - i,
    {
        ids.push(flats[i].id.clone());
        section_of.push(flats[i].section_id.clone());
        i = i + 1;
    }
    proof {
        assert(text::texts(ids@) =~= flat_ids(all));
        assert(text::texts(section_of@) =~= flat_sections(all));
    }
    let mut nodes: Vec<DagNode> = Vec::new();
    i = 0;
    proof {
        assert(node_views(nodes@) =~= Seq::<DagNodeView>::empty());
    }
    while i < flats.len()
        invariant
            all == flat_views(flats@),
            all == flat_tasks(annotated_views(sections@)),
            text::texts(ids@) == flat_ids(all),
            text::texts(section_of@) == flat_sections(all),
            ids@.len() == all.len(),
            section_of@.len() == all.len(),
            i <= flats.len(),
            nodes@.len() == i,
            task_nodes(all, i as nat) == Ok::<Seq<DagNodeView>, DagErrorView>(node_views(nodes@)),
            forall|u: int, k: int|
                #![trigger nodes@[u].deps@[k]]
                0 <= u < i && 0 <= k < nodes@[u].deps@.len() ==> nodes@[u].deps@[k] < flats@.len(),
        decreases flats.len() - i,
    {
        let f: &FlatTask = &flats[i];
        let ghost before = node_views(nodes@);
        proof {
            assert(all[i as int] == f@);
        }
        let mut deps: Vec<usize> = Vec::new();
        if f.needs.len() > 0 {
            match resolve(&ids, &f.needs) {
                Ok(v) => {
                    deps = v;
                },
                Err(to) => {
                    let e = DagError::UnknownRef { from: f.id.clone(), to, kind: "needs" };
                    proof {
                        task_error_stays(all, (i + 1) as nat, all.len());
                    }
                    return Err(e);
                },
            }
        } else {
            match find_last(&section_of, f.section_id.as_str(), i) {
                Some(prev) => {
                    deps.push(prev);
                    proof {
                        assert(deps@ =~= seq![prev]);
                    }
                },
                None => {},
            }
        }
        let node = DagNode {
            id: f.id.clone(),
            label: f.label.clone(),
            deps,
            parallel_with: Vec::new(),
            prompt_template: None,
            source_line: f.line,
        };
        let ghost added = node@;
        nodes.push(node);
        proof {
            assert(node_views(nodes@) =~= before.push(added));
            assert(task_node(all, i as int) == Ok::<DagNodeView, DagErrorView>(added));
        }
        i = i + 1;
    }
    proof {
        assert forall|u: int, k: int|
            #![trigger node_views(nodes@)[u].deps[k]]
            0 <= u < nodes@.len() && 0 <= k < node_views(nodes@)[u].deps.len() implies node_views(
            nodes@,
        )[u].deps[k] < nodes@.len() by {
            assert(nodes@[u].deps@[k] < flats@.len());
        }
    }
    match detect_cycle(&nodes) {
        Ok(()) => Ok(Dag { granularity: Granularity::Task, nodes }),
        Err(e) => Err(e),
    }
}

/// One node for the whole phase.
fn build_phase_dag(sections: &[AnnotatedSection]) -> (r: Result<Dag, DagError>)
    ensures
        graph_result(
            r,
            Granularity::Phase,
            if sections@.len() == 0 {
                Err(DagErrorView::Empty)
            } else {
                Ok(seq![phase_node(annotated_views(sections@))])
            },
        ),
        r matches Ok(dag) ==> sound(node_views(dag.nodes@)),
{
    if sections.len() == 0 {
        return Err(DagError::Empty);
    }
    let node = DagNode {
        id: text::owned("apply"),
        label: text::owned("Apply (whole change)"),
        deps: Vec::new(),
        parallel_with: Vec::new(),
        prompt_template: None,
        source_line: sections[0].section.line,
    };
    let mut nodes: Vec<DagNode> = Vec::new();
    nodes.push(node);
    proof {
        let ns = node_views(nodes@);
        assert(ns =~= seq![phase_node(annotated_views(sections@))]);
        ranked_is_acyclic(ns, seq![0int]);
    }
    Ok(Dag { granularity: Granularity::Phase, nodes })
}

/// Build the graph of an annotated task list.
pub fn build(sections: &[AnnotatedSection]) -> (r: Result<Dag, DagError>)
    ensures
        graph_result(
            r,
            picked_granularity(annotated_views(sections@)),
            nodes_of(annotated_views(sections@)),
        ),
        r matches Ok(dag) ==> sound(node_views(dag.nodes@)),
        picked_granularity(annotated_views(sections@)) is Section ==> {
            &&& (r matches Err(e) && e@ is UnknownRef) <==> exists|i: int, k: int| #[trigger]
                unknown_at(annotated_views(sections@), i, k)
            &&& (r matches Err(e) && e@ is UnknownRef) ==> names_first_unknown(
                annotated_views(sections@),
                r->Err_0@,
            )
        },
{
    match pick_granularity(sections) {
        Granularity::Section => build_section_dag(sections),
        Granularity::Task => build_task_dag(sections),
        Granularity::Phase => build_phase_dag(sections),
    }
}

// ---------------------------------------------------------------------
// Sections without annotations
// ---------------------------------------------------------------------

/// Sections that name no dependencies run one after the other, in the order in
/// which they stand; a heading that groups others is no node.
pub proof fn plain_sections_run_in_order(sections: Seq<AnnotatedSectionView>)
    requires
        sections.len() <= usize::MAX,
        forall|i: int|
            0 <= i < sections.len() ==> (#[trigger] sections[i]).annotations.depends.len() == 0
                && sections[i].annotations.parallel_with.len() == 0,
    ensures
        leaf_sections(sections).len() == 0 ==> section_nodes(sections) == Err::<
            Seq<DagNodeView>,
            DagErrorView,
        >(DagErrorView::Empty),
        leaf_sections(sections).len() > 0 ==> (section_nodes(sections) matches Ok(ns) && ns.len()
            == leaf_sections(sections).len() && !cyclic(ns) && forall|i: int|
            0 <= i < ns.len() ==> (#[trigger] ns[i]).id == leaf_sections(sections)[i].section.id
                && ns[i].deps == (if i == 0 {
                Seq::<usize>::empty()
            } else {
                seq![(i - 1) as usize]
            })),
{
    let ns = leaf_nodes(sections, sections.len());
    plain_leaf_nodes(sections, sections.len());
    assert(sections.take(sections.len() as int) =~= sections);
    let rank = Seq::new(ns.len(), |i: int| i);
    assert forall|u: usize, v: usize| #[trigger] edge(ns, u, v) implies rank[v as int]
        < rank[u as int] by {
        let k = choose|k: int| 0 <= k < ns[u as int].deps.len() && ns[u as int].deps[k] == v;
    }
    ranked_is_acyclic(ns, rank);
}

/// The nodes of the first sections, where none names a dependency.
proof fn plain_leaf_nodes(sections: Seq<AnnotatedSectionView>, n: nat)
    requires
        n <= sections.len() <= usize::MAX,
        forall|i: int|
            0 <= i < sections.len() ==> (#[trigger] sections[i]).annotations.depends.len() == 0
                && sections[i].annotations.parallel_with.len() == 0,
    ensures
        first_unknown(sections, n) is None,
        n < sections.len() ==> waited_for(sections, n) == (if leaves_before(sections, n) == 0 {
            Seq::<usize>::empty()
        } else {
            seq![(leaves_before(sections, n) - 1) as usize]
        }),
        leaf_nodes(sections, n).len() == leaves_before(sections, n),
        ({
            let leaves = sections.take(n as int).filter(
                |s: AnnotatedSectionView| is_leaf(sections, s),
            );
            let ns = leaf_nodes(sections, n);
            ns.len() == leaves.len() && forall|i: int|
                0 <= i < ns.len() ==> (#[trigger] ns[i]).id == leaves[i].section.id && ns[i].deps
                    == (if i == 0 {
                    Seq::<usize>::empty()
                } else {
                    seq![(i - 1) as usize]
                })
        }),
    decreases n,
{
    reveal(Seq::filter);
    if n > 0 {
        plain_leaf_nodes(sections, (n - 1) as nat);
        assert(sections[n - 1].annotations.depends.len() == 0);
        assert(sections.take(n as int).drop_last() =~= sections.take(n - 1));
        assert(sections.take(n as int).last() == sections[n - 1]);
    }
    if n < sections.len() {
        assert(sections[n as int].annotations.depends.len() == 0);
    }
}

/// Where no section names another as its parent, all sections are leaves.
pub proof fn ungrouped_sections_are_leaves(sections: Seq<AnnotatedSectionView>)
    requires
        forall|i: int, k: int|
            0 <= i < sections.len() && 0 <= k < sections.len() ==> (
            #[trigger] sections[k]).section.parent != Some((#[trigger] sections[i]).section.id),
    ensures
        leaf_sections(sections) == sections,
{
    assert forall|i: int| 0 <= i < sections.len() implies is_leaf(sections, #[trigger] sections[i]) by {}
    filter_keeps(sections, |s: AnnotatedSectionView| is_leaf(sections, s));
}

/// A filter that every element passes leaves a list as it is.
proof fn filter_keeps(list: Seq<AnnotatedSectionView>, f: spec_fn(AnnotatedSectionView) -> bool)
    requires
        forall|i: int| 0 <= i < list.len() ==> f(#[trigger] list[i]),
    ensures
        list.filter(f) == list,
    decreases list.len(),
{
    reveal(Seq::filter);
    if list.len() > 0 {
        assert forall|i: int| 0 <= i < list.len() - 1 implies f(
            #[trigger] list.drop_last()[i],
        ) by {
            assert(f(list[i]));
        }
        filter_keeps(list.drop_last(), f);
        assert(list.drop_last().push(list.last()) =~= list);
    }
}

// ---------------------------------------------------------------------
// References
// ---------------------------------------------------------------------

/// A reference that is no section's id is rejected, whichever section makes it
/// and whether or not the other edges form a cycle; the error names the first.
pub proof fn unknown_references_are_rejected(sections: Seq<AnnotatedSectionView>)
    requires
        sections.len() <= usize::MAX,
    ensures
        (section_nodes(sections) matches Err(e) && e is UnknownRef) <==> exists|i: int, k: int|
            #[trigger]
            unknown_at(sections, i, k),
        (section_nodes(sections) matches Err(e) && e is UnknownRef) ==> names_first_unknown(
            sections,
            section_nodes(sections)->Err_0,
        ),
{
    first_unknown_is_first(sections, sections.len());
    if first_unknown(sections, sections.len()) is Some {
        let (i, k) = choose|i: int, k: int| #[trigger]
            first_unknown_at(sections, i, k) && first_unknown(sections, sections.len()) == Some(
                reference_error(sections[i], k),
            );
        assert(unknown_at(sections, i, k));
    }
}

/// A heading that groups others stands for exactly the leaf sections below it,
/// each by its node.
pub proof fn headings_stand_for_the_leaves_below(
    sections: Seq<AnnotatedSectionView>,
    j: int,
    k: int,
)
    requires
        sections.len() <= usize::MAX,
        0 <= j < sections.len(),
        0 <= k < sections.len(),
        !is_leaf(sections, sections[j]),
        is_leaf(sections, sections[k]),
    ensures
        standing_for(sections, j).contains(leaves_before(sections, k as nat) as usize) <==> below(
            sections[k],
            sections[j].section.id,
        ),
        leaf_nodes(sections, sections.len())[leaves_before(sections, k as nat) as int]
            == section_node(sections, k),
{
    leaf_below_is_listed(sections, sections[j].section.id, k, sections.len());
    leaf_has_its_node(sections, k, sections.len());
}

/// A leaf is listed below a heading exactly where it stands there.
proof fn leaf_below_is_listed(
    sections: Seq<AnnotatedSectionView>,
    id: Seq<char>,
    k: int,
    n: nat,
)
    requires
        n <= sections.len() <= usize::MAX,
        0 <= k < sections.len(),
        is_leaf(sections, sections[k]),
    ensures
        leaves_below(sections, id, n).contains(leaves_before(sections, k as nat) as usize) <==> k
            < n && below(sections[k], id),
    decreases n,
{
    if n > 0 {
        let before = leaves_below(sections, id, (n - 1) as nat);
        let listed = leaves_below(sections, id, n);
        let u = leaves_before(sections, k as nat) as usize;
        leaf_below_is_listed(sections, id, k, (n - 1) as nat);
        leaves_are_counted(sections, k as nat, sections.len());
        leaves_are_counted(sections, (n - 1) as nat, sections.len());
        if k < n - 1 {
            leaves_are_counted(sections, k as nat, (n - 1) as nat);
        } else if n - 1 < k {
            leaves_are_counted(sections, (n - 1) as nat, k as nat);
        }
        if listed != before {
            let v = leaves_before(sections, (n - 1) as nat) as usize;
            assert(listed == before.push(v));
            assert(listed[before.len() as int] == v);
            if before.contains(u) {
                let m = choose|m: int| 0 <= m < before.len() && before[m] == u;
                assert(listed[m] == u);
            }
            if listed.contains(u) && u != v {
                let m = choose|m: int| 0 <= m < listed.len() && listed[m] == u;
                assert(before[m] == u);
            }
        }
    }
}

/// The node of a leaf stands behind those of the leaves before it.
proof fn leaf_has_its_node(sections: Seq<AnnotatedSectionView>, k: int, n: nat)
    requires
        0 <= k < n <= sections.len(),
        is_leaf(sections, sections[k]),
    ensures
        leaves_before(sections, k as nat) < leaf_nodes(sections, n).len(),
        leaf_nodes(sections, n)[leaves_before(sections, k as nat) as int] == section_node(
            sections,
            k,
        ),
    decreases n,
{
    leaf_nodes_are_counted(sections, (n - 1) as nat);
    if k < n - 1 {
        leaf_has_its_node(sections, k, (n - 1) as nat);
    }
}

/// A section waits for everything that the sections it depends on stand for,
/// but for a heading that it stands under itself.
pub proof fn dependencies_are_waited_for(
    sections: Seq<AnnotatedSectionView>,
    i: nat,
    m: int,
    u: usize,
)
    requires
        i < sections.len(),
        0 <= m < targets(sections, sections[i as int].annotations.depends).len(),
        ({
            let j = targets(sections, sections[i as int].annotations.depends)[m] as int;
            !under_heading(sections, i, j) && standing_for(sections, j).contains(u)
        }),
    ensures
        waited_for(sections, i).contains(u),
{
    depended_on_holds(sections, i, targets(sections, sections[i as int].annotations.depends), m, u);
}

/// What one of the sections depended on stands for is among what is waited for.
proof fn depended_on_holds(
    sections: Seq<AnnotatedSectionView>,
    i: nat,
    ts: Seq<usize>,
    m: int,
    u: usize,
)
    requires
        0 <= m < ts.len(),
        !under_heading(sections, i, ts[m] as int),
        standing_for(sections, ts[m] as int).contains(u),
    ensures
        depended_on(sections, i, ts).contains(u),
    decreases ts.len(),
{
    let before = depended_on(sections, i, ts.drop_last());
    let all = depended_on(sections, i, ts);
    let j = ts.last();
    if m < ts.len() - 1 {
        depended_on_holds(sections, i, ts.drop_last(), m, u);
        let k = choose|k: int| 0 <= k < before.len() && before[k] == u;
        if under_heading(sections, i, j as int) {
            united_keeps(before, waited_for(sections, j as nat));
        }
        assert(all[k] == u);
    } else {
        let added = standing_for(sections, j as int);
        let k = choose|k: int| 0 <= k < added.len() && added[k] == u;
        assert(all[before.len() + k] == u);
    }
}

/// What is listed already stays where it is.
proof fn united_keeps(listed: Seq<usize>, more: Seq<usize>)
    ensures
        united(listed, more).len() >= listed.len(),
        forall|k: int| 0 <= k < listed.len() ==> #[trigger] united(listed, more)[k] == listed[k],
    decreases more.len(),
{
    if more.len() > 0 {
        united_keeps(listed, more.drop_last());
    }
}

/// What is said of reference `k` of a section where it is unknown.
spec fn reference_error(s: AnnotatedSectionView, k: int) -> DagErrorView {
    DagErrorView::UnknownRef {
        from: s.section.id,
        to: references(s)[k].0,
        kind: references(s)[k].1,
    }
}

/// All references are ids, or the first that is none is found.
proof fn first_unresolved(ids: Seq<Seq<char>>, refs: Seq<Seq<char>>)
    requires
        ids.len() <= usize::MAX,
    ensures
        match resolved(ids, refs) {
            Ok(_) => forall|k: int| 0 <= k < refs.len() ==> ids.contains(#[trigger] refs[k]),
            Err(to) => exists|k: int|
                0 <= k < refs.len() && #[trigger] refs[k] == to && !ids.contains(to) && forall|
                    m: int,
                |
                    0 <= m < k ==> ids.contains(#[trigger] refs[m]),
        },
    decreases refs.len(),
{
    if refs.len() > 0 {
        let front = refs.drop_last();
        first_unresolved(ids, front);
        last_index_is_known(ids, refs.last());
        match resolved(ids, front) {
            Ok(_) => {
                assert forall|k: int| 0 <= k < front.len() implies ids.contains(
                    #[trigger] refs[k],
                ) by {
                    assert(ids.contains(front[k]));
                }
                assert(refs[refs.len() - 1] == refs.last());
            },
            Err(to) => {
                let k = choose|k: int|
                    0 <= k < front.len() && #[trigger] front[k] == to && !ids.contains(to)
                        && forall|m: int| 0 <= m < k ==> ids.contains(#[trigger] front[m]);
                assert(refs[k] == to);
                assert forall|m: int| 0 <= m < k implies ids.contains(#[trigger] refs[m]) by {
                    assert(ids.contains(front[m]));
                }
            },
        }
    }
}

/// All references of a section are ids, or the first that is none is found.
proof fn first_unknown_of_section(ids: Seq<Seq<char>>, s: AnnotatedSectionView)
    requires
        ids.len() <= usize::MAX,
    ensures
        match unknown_in(ids, s) {
            None => forall|k: int|
                0 <= k < references(s).len() ==> ids.contains((#[trigger] references(s)[k]).0),
            Some(e) => exists|k: int|
                0 <= k < references(s).len() && !ids.contains((#[trigger] references(s)[k]).0) && e
                    == reference_error(s, k) && forall|m: int|
                    0 <= m < k ==> ids.contains((#[trigger] references(s)[m]).0),
        },
{
    let depends = s.annotations.depends;
    let parallel = s.annotations.parallel_with;
    let all = references(s);
    first_unresolved(ids, depends);
    first_unresolved(ids, parallel);
    assert forall|k: int| 0 <= k < depends.len() implies #[trigger] all[k] == (
        depends[k],
        "depends"@,
    ) by {}
    assert forall|k: int| depends.len() <= k < all.len() implies #[trigger] all[k] == (
        parallel[k - depends.len()],
        "parallel-with"@,
    ) by {}
    match resolved(ids, depends) {
        Err(to) => {
            let k = choose|k: int|
                0 <= k < depends.len() && #[trigger] depends[k] == to && !ids.contains(to)
                    && forall|m: int| 0 <= m < k ==> ids.contains(#[trigger] depends[m]);
            assert(!ids.contains(all[k].0));
            assert forall|m: int| 0 <= m < k implies ids.contains((#[trigger] all[m]).0) by {
                assert(ids.contains(depends[m]));
            }
        },
        Ok(_) => {
            assert forall|m: int| 0 <= m < depends.len() implies ids.contains(
                (#[trigger] all[m]).0,
            ) by {
                assert(ids.contains(depends[m]));
            }
            match resolved(ids, parallel) {
                Err(to) => {
                    let k = choose|k: int|
                        0 <= k < parallel.len() && #[trigger] parallel[k] == to && !ids.contains(to)
                            && forall|m: int| 0 <= m < k ==> ids.contains(#[trigger] parallel[m]);
                    let n = depends.len() + k;
                    assert(!ids.contains(all[n].0));
                    assert forall|m: int| 0 <= m < n implies ids.contains((#[trigger] all[m]).0) by {
                        if m >= depends.len() {
                            assert(ids.contains(parallel[m - depends.len()]));
                        }
                    }
                },
                Ok(_) => {
                    assert forall|m: int| 0 <= m < all.len() implies ids.contains(
                        (#[trigger] all[m]).0,
                    ) by {
                        if m >= depends.len() {
                            assert(ids.contains(parallel[m - depends.len()]));
                        }
                    }
                },
            }
        },
    }
}

/// All references of the first sections are ids, or the first that is none is
/// found.
proof fn first_unknown_is_first(sections: Seq<AnnotatedSectionView>, n: nat)
    requires
        n <= sections.len() <= usize::MAX,
    ensures
        match first_unknown(sections, n) {
            None => forall|i: int, k: int| #[trigger] unknown_at(sections, i, k) ==> i >= n,
            Some(e) => exists|i: int, k: int| #[trigger]
                first_unknown_at(sections, i, k) && e == reference_error(sections[i], k),
        },
    decreases n,
{
    if n > 0 {
        first_unknown_is_first(sections, (n - 1) as nat);
        if first_unknown(sections, (n - 1) as nat) is None {
            let ids = section_ids(sections);
            let s = sections[n - 1];
            first_unknown_of_section(ids, s);
            match unknown_in(ids, s) {
                None => {
                    assert forall|i: int, k: int| #[trigger]
                        unknown_at(sections, i, k) implies i >= n by {
                        if i == n - 1 {
                            assert(ids.contains(references(s)[k].0));
                        }
                    }
                },
                Some(e) => {
                    let k = choose|k: int|
                        0 <= k < references(s).len() && !ids.contains(
                            (#[trigger] references(s)[k]).0,
                        ) && e == reference_error(s, k) && forall|m: int|
                            0 <= m < k ==> ids.contains((#[trigger] references(s)[m]).0);
                    assert(unknown_at(sections, n - 1, k));
                    assert forall|h: int, m: int| #[trigger]
                        unknown_at(sections, h, m) implies n - 1 < h || (n - 1 == h && k <= m) by {
                        if h == n - 1 && m < k {
                            assert(ids.contains(references(s)[m].0));
                        }
                    }
                    assert(first_unknown_at(sections, n - 1, k));
                },
            }
        }
    }
}

// ---------------------------------------------------------------------
// Granularity and tasks
// ---------------------------------------------------------------------

/// The first section that sets a granularity decides; where none does, work is
/// cut up by sections.
pub proof fn first_granularity_decides(sections: Seq<AnnotatedSectionView>)
    ensures
        forall|i: int|
            0 <= i < sections.len() && (#[trigger] sections[i]).annotations.granularity is Some && (
            forall|j: int|
                0 <= j < i ==> (#[trigger] sections[j]).annotations.granularity is None)
                ==> picked_granularity(sections) == sections[i].annotations.granularity->0,
        (forall|i: int|
            0 <= i < sections.len() ==> (#[trigger] sections[i]).annotations.granularity is None)
            ==> picked_granularity(sections) == Granularity::Section,
    decreases sections.len(),
{
    if sections.len() > 0 {
        let rest = sections.drop_first();
        first_granularity_decides(rest);
        assert forall|i: int| 1 <= i < sections.len() implies sections[i] == #[trigger] rest[i
            - 1] by {}
        assert forall|i: int|
            0 <= i < sections.len() && (#[trigger] sections[i]).annotations.granularity is Some && (
            forall|j: int|
                0 <= j < i ==> (#[trigger] sections[j]).annotations.granularity is None)
            implies picked_granularity(sections) == sections[i].annotations.granularity->0 by {
            if i > 0 {
                assert(sections[0].annotations.granularity is None);
                assert(rest[i - 1] == sections[i]);
                assert forall|j: int| 0 <= j < i - 1 implies (
                #[trigger] rest[j]).annotations.granularity is None by {
                    assert(sections[j + 1].annotations.granularity is None);
                }
            }
        }
        if forall|i: int|
            0 <= i < sections.len() ==> (#[trigger] sections[i]).annotations.granularity is None {
            assert(sections[0].annotations.granularity is None);
            assert forall|j: int| 0 <= j < rest.len() implies (
            #[trigger] rest[j]).annotations.granularity is None by {
                assert(sections[j + 1].annotations.granularity is None);
            }
        }
    }
}

/// How many tasks the first `n` sections have.
pub open spec fn tasks_before(sections: Seq<AnnotatedSectionView>, n: int) -> int
    decreases n,
{
    if n <= 0 {
        0
    } else {
        tasks_before(sections, n - 1) + sections[n - 1].items.len()
    }
}

/// Task `i` of the whole list is item `b` of section `a`.
pub open spec fn task_is(sections: Seq<AnnotatedSectionView>, i: int, a: int, b: int) -> bool {
    &&& 0 <= a < sections.len()
    &&& 0 <= b < sections[a].items.len()
    &&& i == tasks_before(sections, a) + b
}

/// The flat list holds the tasks of all sections in the order in which they
/// stand, each with what its line says and the section that it stands in.
pub proof fn tasks_are_listed_in_order(
    sections: Seq<AnnotatedSectionView>,
    i: int,
    a: int,
    b: int,
)
    requires
        task_is(sections, i, a, b),
    ensures
        flat_tasks(sections).len() == tasks_before(sections, sections.len() as int),
        0 <= i < flat_tasks(sections).len(),
        ({
            let f = flat_tasks(sections)[i];
            let t = sections[a].items[b];
            &&& t.task.id.len() > 0 ==> f.id == t.task.id && !f.made_up
            &&& t.task.id.len() == 0 ==> f.id == sections[a].section.id + "."@ + text::decimal(
                (i + 1) as nat,
            ) && f.made_up
            &&& f.label == t.task.text
            &&& f.line == t.task.line_range.0
            &&& f.needs == t.needs
            &&& f.done == t.task.done
            &&& f.section_id == sections[a].section.id
        }),
    decreases sections.len(),
{
    flat_tasks_are_counted(sections);
    let front = sections.drop_last();
    let s = sections.last();
    let before = flat_tasks(front);
    flat_tasks_are_counted(front);
    same_tasks_before(sections, front, front.len() as int);
    items_follow(before, s, s.items.len());
    if a < front.len() {
        same_tasks_before(sections, front, a);
        assert(front[a] == sections[a]);
        tasks_are_listed_in_order(front, i, a, b);
    } else {
        assert(flat_tasks(sections)[i] == flat_task(s, s.items[b], i as nat));
    }
}

/// Lists that agree on their first `n` sections have as many tasks there.
proof fn same_tasks_before(x: Seq<AnnotatedSectionView>, y: Seq<AnnotatedSectionView>, n: int)
    requires
        n <= x.len(),
        n <= y.len(),
        forall|k: int| 0 <= k < n ==> x[k] == y[k],
    ensures
        tasks_before(x, n) == tasks_before(y, n),
    decreases n,
{
    if n > 0 {
        same_tasks_before(x, y, n - 1);
        assert(x[n - 1] == y[n - 1]);
    }
}

/// The flat list has one entry for each task.
proof fn flat_tasks_are_counted(sections: Seq<AnnotatedSectionView>)
    ensures
        flat_tasks(sections).len() == tasks_before(sections, sections.len() as int),
    decreases sections.len(),
{
    if sections.len() > 0 {
        let front = sections.drop_last();
        flat_tasks_are_counted(front);
        same_tasks_before(sections, front, front.len() as int);
        items_follow(flat_tasks(front), sections.last(), sections.last().items.len());
    }
}

/// The tasks of a section follow those before it.
pub proof fn items_follow(before: Seq<FlatView>, s: AnnotatedSectionView, k: nat)
    requires
        k <= s.items.len(),
    ensures
        flat_items(before, s, k).len() == before.len() + k,
        forall|i: int|
            0 <= i < before.len() ==> #[trigger] flat_items(before, s, k)[i] == before[i],
        forall|i: int|
            before.len() <= i < before.len() + k ==> #[trigger] flat_items(before, s, k)[i]
                == flat_task(s, s.items[i - before.len()], i as nat),
    decreases k,
{
    if k > 0 {
        items_follow(before, s, (k - 1) as nat);
    }
}

/// The last place of an id is the last place.
proof fn last_index_is_last(ids: Seq<Seq<char>>, id: Seq<char>)
    requires
        ids.len() <= usize::MAX,
    ensures
        last_index(ids, id) matches Some(j) ==> forall|k: int|
            j < k < ids.len() ==> #[trigger] ids[k] != id,
    decreases ids.len(),
{
    if ids.len() > 0 && ids.last() != id {
        let front = ids.drop_last();
        last_index_is_last(front, id);
        last_index_is_known(front, id);
        if let Some(j) = last_index(ids, id) {
            assert forall|k: int| j < k < ids.len() implies #[trigger] ids[k] != id by {
                if k < front.len() {
                    assert(front[k] == ids[k]);
                }
            }
        }
    }
}

/// Each reference that resolves leads to the last place that has the id.
proof fn resolved_leads_there(ids: Seq<Seq<char>>, refs: Seq<Seq<char>>)
    requires
        ids.len() <= usize::MAX,
    ensures
        resolved(ids, refs) matches Ok(ts) ==> ts.len() == refs.len() && forall|k: int|
            0 <= k < ts.len() ==> (#[trigger] ts[k]) < ids.len() && ids[ts[k] as int] == refs[k]
                && forall|m: int| ts[k] < m < ids.len() ==> #[trigger] ids[m] != refs[k],
    decreases refs.len(),
{
    if refs.len() > 0 {
        let front = refs.drop_last();
        resolved_leads_there(ids, front);
        last_index_is_known(ids, refs.last());
        last_index_is_last(ids, refs.last());
        if let Ok(ts) = resolved(ids, refs) {
            assert forall|k: int| 0 <= k < ts.len() implies (#[trigger] ts[k]) < ids.len()
                && ids[ts[k] as int] == refs[k] && forall|m: int|
                ts[k] < m < ids.len() ==> #[trigger] ids[m] != refs[k] by {
                if k < front.len() {
                    assert(front[k] == refs[k]);
                    assert(resolved(ids, front)->Ok_0[k] == ts[k]);
                }
            }
        }
    }
}

/// In a graph of tasks there is one node per task, in order. A task without
/// `needs` depends on exactly the nearest task before it in its section, and on
/// nothing where it is the first there. One with `needs` depends on exactly the
/// tasks that it names, each the last with its id.
pub proof fn tasks_wait_for_their_predecessors(
    sections: Seq<AnnotatedSectionView>,
    ns: Seq<DagNodeView>,
)
    requires
        picked_granularity(sections) == Granularity::Task,
        nodes_of(sections) == Ok::<Seq<DagNodeView>, DagErrorView>(ns),
        flat_tasks(sections).len() <= usize::MAX,
    ensures
        ns.len() == flat_tasks(sections).len(),
        ns.len() > 0,
        forall|i: int|
            0 <= i < ns.len() ==> {
                let flats = flat_tasks(sections);
                let f = flats[i];
                let n = #[trigger] ns[i];
                &&& n.id == f.id
                &&& n.label == f.label
                &&& n.source_line == f.line
                &&& n.prompt_template is None
                &&& n.parallel_with.len() == 0
                &&& f.needs.len() == 0 ==> n.deps.len() <= 1
                &&& f.needs.len() == 0 && n.deps.len() == 1 ==> n.deps[0] < i
                    && flats[n.deps[0] as int].section_id == f.section_id && forall|k: int|
                    n.deps[0] < k < i ==> (#[trigger] flats[k]).section_id != f.section_id
                &&& f.needs.len() == 0 && n.deps.len() == 0 ==> forall|k: int|
                    0 <= k < i ==> (#[trigger] flats[k]).section_id != f.section_id
                &&& f.needs.len() > 0 ==> n.deps.len() == f.needs.len()
                &&& f.needs.len() > 0 ==> forall|k: int|
                    0 <= k < n.deps.len() ==> (#[trigger] n.deps[k]) < flats.len()
                        && flats[n.deps[k] as int].id == f.needs[k] && forall|m: int|
                        n.deps[k] < m < flats.len() ==> (#[trigger] flats[m]).id != f.needs[k]
            },
{
    let flats = flat_tasks(sections);
    task_nodes_are(flats, flats.len());
    assert forall|i: int| 0 <= i < ns.len() implies ({
        let f = flats[i];
        let n = #[trigger] ns[i];
        &&& n.id == f.id
        &&& n.label == f.label
        &&& n.source_line == f.line
        &&& n.prompt_template is None
        &&& n.parallel_with.len() == 0
        &&& f.needs.len() == 0 ==> n.deps.len() <= 1
        &&& f.needs.len() == 0 && n.deps.len() == 1 ==> n.deps[0] < i
            && flats[n.deps[0] as int].section_id == f.section_id && forall|k: int|
            n.deps[0] < k < i ==> (#[trigger] flats[k]).section_id != f.section_id
        &&& f.needs.len() == 0 && n.deps.len() == 0 ==> forall|k: int|
            0 <= k < i ==> (#[trigger] flats[k]).section_id != f.section_id
        &&& f.needs.len() > 0 ==> n.deps.len() == f.needs.len()
        &&& f.needs.len() > 0 ==> forall|k: int|
            0 <= k < n.deps.len() ==> (#[trigger] n.deps[k]) < flats.len()
                && flats[n.deps[k] as int].id == f.needs[k] && forall|m: int|
                n.deps[k] < m < flats.len() ==> (#[trigger] flats[m]).id != f.needs[k]
    }) by {
        let f = flats[i];
        assert(task_node(flats, i) == Ok::<DagNodeView, DagErrorView>(ns[i]));
        if f.needs.len() > 0 {
            resolved_leads_there(flat_ids(flats), f.needs);
            assert forall|k: int| 0 <= k < ns[i].deps.len() implies (#[trigger] ns[i].deps[k])
                < flats.len() && flats[ns[i].deps[k] as int].id == f.needs[k] && forall|m: int|
                ns[i].deps[k] < m < flats.len() ==> (#[trigger] flats[m]).id != f.needs[k] by {
                assert forall|m: int| ns[i].deps[k] < m < flats.len() implies (
                #[trigger] flats[m]).id != f.needs[k] by {
                    assert(flat_ids(flats)[m] == flats[m].id);
                }
            }
        } else {
            let before = flat_sections(flats).take(i);
            last_index_is_known(before, f.section_id);
            last_index_is_last(before, f.section_id);
            assert forall|k: int| 0 <= k < i implies (#[trigger] flats[k]).section_id
                == before[k] by {}
            if last_index(before, f.section_id) is None {
                assert forall|k: int| 0 <= k < i implies (#[trigger] flats[k]).section_id
                    != f.section_id by {
                    assert(!before.contains(f.section_id));
                    assert(before[k] == flats[k].section_id);
                }
            }
        }
    }
}

/// The nodes of tasks stand in the order of the tasks.
proof fn task_nodes_are(flats: Seq<FlatView>, n: nat)
    requires
        n <= flats.len(),
        task_nodes(flats, n) is Ok,
    ensures
        task_nodes(flats, n)->Ok_0.len() == n,
        forall|i: int|
            0 <= i < n ==> task_node(flats, i) == Ok::<DagNodeView, DagErrorView>(
                #[trigger] task_nodes(flats, n)->Ok_0[i],
            ),
    decreases n,
{
    if n > 0 {
        task_nodes_are(flats, (n - 1) as nat);
    }
}

/// A graph of tasks is refused exactly where there is no task, or where a task
/// needs an id that no task has; then the first such need is named.
pub proof fn unknown_needs_are_rejected(sections: Seq<AnnotatedSectionView>)
    requires
        picked_granularity(sections) == Granularity::Task,
        flat_tasks(sections).len() <= usize::MAX,
    ensures
        ({
            let flats = flat_tasks(sections);
            let r = nodes_of(sections);
            &&& (r matches Err(e) && e == DagErrorView::Empty) <==> flats.len() == 0
            &&& r is Ok <==> flats.len() > 0 && forall|i: int, k: int|
                #![trigger flats[i].needs[k]]
                0 <= i < flats.len() && 0 <= k < flats[i].needs.len() ==> flat_ids(flats).contains(
                    flats[i].needs[k],
                )
            &&& (r matches Err(e) && e != DagErrorView::Empty) ==> exists|i: int, k: int|
                #![trigger flats[i].needs[k]]
                0 <= i < flats.len() && 0 <= k < flats[i].needs.len() && !flat_ids(flats).contains(
                    flats[i].needs[k],
                ) && r->Err_0 == (DagErrorView::UnknownRef {
                    from: flats[i].id,
                    to: flats[i].needs[k],
                    kind: "needs"@,
                }) && forall|h: int, m: int|
                    #![trigger flats[h].needs[m]]
                    0 <= h < flats.len() && 0 <= m < flats[h].needs.len() && !flat_ids(
                        flats,
                    ).contains(flats[h].needs[m]) ==> i < h || (i == h && k <= m)
        }),
{
    let flats = flat_tasks(sections);
    if flats.len() > 0 {
        first_unknown_need(flats, flats.len());
    }
}

/// All needs of the first tasks are ids, or the first that is none is found.
proof fn first_unknown_need(flats: Seq<FlatView>, n: nat)
    requires
        n <= flats.len() <= usize::MAX,
    ensures
        match task_nodes(flats, n) {
            Ok(_) => forall|i: int, k: int|
                #![trigger flats[i].needs[k]]
                0 <= i < n && 0 <= k < flats[i].needs.len() ==> flat_ids(flats).contains(
                    flats[i].needs[k],
                ),
            Err(e) => exists|i: int, k: int|
                #![trigger flats[i].needs[k]]
                0 <= i < n && 0 <= k < flats[i].needs.len() && !flat_ids(flats).contains(
                    flats[i].needs[k],
                ) && e == (DagErrorView::UnknownRef {
                    from: flats[i].id,
                    to: flats[i].needs[k],
                    kind: "needs"@,
                }) && forall|h: int, m: int|
                    #![trigger flats[h].needs[m]]
                    0 <= h < flats.len() && 0 <= m < flats[h].needs.len() && !flat_ids(
                        flats,
                    ).contains(flats[h].needs[m]) ==> i < h || (i == h && k <= m),
        },
    decreases n,
{
    if n > 0 {
        first_unknown_need(flats, (n - 1) as nat);
        if task_nodes(flats, (n - 1) as nat) is Ok {
            let ids = flat_ids(flats);
            let needs = flats[n - 1].needs;
            first_unresolved(ids, needs);
            if needs.len() > 0 {
                match resolved(ids, needs) {
                    Ok(_) => {
                        assert forall|i: int, k: int|
                            #![trigger flats[i].needs[k]]
                            0 <= i < n && 0 <= k < flats[i].needs.len() implies ids.contains(
                            flats[i].needs[k],
                        ) by {
                            if i == n - 1 {
                                assert(ids.contains(needs[k]));
                            }
                        }
                    },
                    Err(to) => {
                        let k = choose|k: int|
                            0 <= k < needs.len() && #[trigger] needs[k] == to && !ids.contains(to)
                                && forall|m: int| 0 <= m < k ==> ids.contains(#[trigger] needs[m]);
                        assert(flats[n - 1].needs[k] == to);
                        assert forall|h: int, m: int|
                            #![trigger flats[h].needs[m]]
                            0 <= h < flats.len() && 0 <= m < flats[h].needs.len() && !ids.contains(
                                flats[h].needs[m],
                            ) implies n - 1 < h || (n - 1 == h && k <= m) by {
                            if h == n - 1 && m < k {
                                assert(ids.contains(needs[m]));
                            }
                        }
                    },
                }
            }
        }
    }
}

/// With the granularity `phase` there is one node, which waits for nothing, on
/// the line of the first heading; without sections there is none.
pub proof fn phase_is_one_node(sections: Seq<AnnotatedSectionView>)
    requires
        picked_granularity(sections) == Granularity::Phase,
    ensures
        sections.len() > 0 ==> (nodes_of(sections) matches Ok(ns) && ns.len() == 1 && ns[0].id
            == "apply"@ && ns[0].label == "Apply (whole change)"@ && ns[0].deps.len() == 0
            && ns[0].parallel_with.len() == 0 && ns[0].prompt_template is None && ns[0].source_line
            == sections[0].section.line),
        sections.len() == 0 ==> nodes_of(sections) == Err::<Seq<DagNodeView>, DagErrorView>(
            DagErrorView::Empty,
        ),
{
}

// ---------------------------------------------------------------------
// Sections
// ---------------------------------------------------------------------

/// A section has a node exactly where no section has it as its parent. The node
/// shows what the section's heading says, and the nodes stand in the order of
/// the sections.
pub proof fn leaf_sections_have_nodes(sections: Seq<AnnotatedSectionView>, i: int)
    requires
        0 <= i < sections.len() <= usize::MAX,
    ensures
        is_leaf(sections, sections[i]) <==> forall|k: int|
            0 <= k < sections.len() ==> (#[trigger] sections[k]).section.parent != Some(
                sections[i].section.id,
            ),
        is_leaf(sections, sections[i]) ==> {
            let ns = leaf_nodes(sections, sections.len());
            let n = leaves_before(sections, i as nat) as int;
            &&& 0 <= n < ns.len()
            &&& ns[n].id == sections[i].section.id
            &&& ns[n].label == sections[i].section.title
            &&& ns[n].source_line == sections[i].section.line
            &&& ns[n].prompt_template == sections[i].annotations.prompt_template
            &&& ns[n].deps == waited_for(sections, i as nat)
        },
        forall|j: int|
            0 <= j < i && is_leaf(sections, #[trigger] sections[j]) ==> leaves_before(
                sections,
                j as nat,
            ) < leaves_before(sections, i as nat),
        leaf_nodes(sections, sections.len()).len() == leaf_sections(sections).len(),
{
    if is_leaf(sections, sections[i]) {
        leaf_has_its_node(sections, i, sections.len());
    }
    assert forall|j: int| 0 <= j < i && is_leaf(sections, #[trigger] sections[j]) implies leaves_before(
        sections,
        j as nat,
    ) < leaves_before(sections, i as nat) by {
        leaves_are_counted(sections, j as nat, i as nat);
    }
    leaf_nodes_are_counted(sections, sections.len());
    leaves_are_filtered(sections, sections.len());
    assert(sections.take(sections.len() as int) =~= sections);
}

/// There are as many leaves as a filter finds.
proof fn leaves_are_filtered(sections: Seq<AnnotatedSectionView>, n: nat)
    requires
        n <= sections.len(),
    ensures
        leaves_before(sections, n) == sections.take(n as int).filter(
            |s: AnnotatedSectionView| is_leaf(sections, s),
        ).len(),
    decreases n,
{
    reveal(Seq::filter);
    if n > 0 {
        leaves_are_filtered(sections, (n - 1) as nat);
        assert(sections.take(n as int).drop_last() =~= sections.take(n - 1));
        assert(sections.take(n as int).last() == sections[n - 1]);
    }
}

/// A section that names no dependencies waits for the section before it alone,
/// and the first for nothing; behind a heading that groups others, it waits for
/// what the heading waits for.
pub proof fn sections_wait_for_the_one_before(sections: Seq<AnnotatedSectionView>, i: int)
    requires
        0 <= i < sections.len() <= usize::MAX,
        sections[i].annotations.depends.len() == 0,
    ensures
        i == 0 ==> waited_for(sections, i as nat).len() == 0,
        i > 0 && is_leaf(sections, sections[i - 1]) ==> waited_for(sections, i as nat).len() == 1
            && waited_for(sections, i as nat)[0] == leaves_before(sections, (i - 1) as nat),
        i > 0 && !is_leaf(sections, sections[i - 1]) ==> waited_for(sections, i as nat)
            == waited_for(sections, (i - 1) as nat),
{
    if i > 0 {
        leaves_are_counted(sections, (i - 1) as nat, sections.len());
    }
}

/// A section that names dependencies waits for exactly what the named sections
/// stand for; of a heading that it stands under itself, for what that waits for.
pub proof fn sections_wait_for_what_they_name(
    sections: Seq<AnnotatedSectionView>,
    i: int,
    ts: Seq<usize>,
)
    requires
        0 <= i < sections.len() <= usize::MAX,
        sections[i].annotations.depends.len() > 0,
        resolved(section_ids(sections), sections[i].annotations.depends) == Ok::<
            Seq<usize>,
            Seq<char>,
        >(ts),
    ensures
        ts.len() == sections[i].annotations.depends.len(),
        forall|m: int|
            0 <= m < ts.len() ==> (#[trigger] ts[m]) < sections.len()
                && sections[ts[m] as int].section.id == sections[i].annotations.depends[m],
        forall|u: usize| #[trigger]
            waited_for(sections, i as nat).contains(u) <==> exists|m: int|
                0 <= m < ts.len() && named_brings(sections, i, #[trigger] ts[m] as int, u),
{
    resolved_leads_there(section_ids(sections), sections[i].annotations.depends);
    depended_on_is(sections, i, ts);
    let waited = waited_for(sections, i as nat);
    assert(waited == depended_on(sections, i as nat, ts));
    assert forall|u: usize| #[trigger] waited.contains(u) <==> exists|m: int|
        0 <= m < ts.len() && named_brings(sections, i, #[trigger] ts[m] as int, u) by {
        assert(depended_on(sections, i as nat, ts).contains(u) <==> exists|m: int|
            0 <= m < ts.len() && named_brings(sections, i, #[trigger] ts[m] as int, u));
    }
}

/// To depend on section `j` makes section `i` wait for node `u`.
pub open spec fn named_brings(
    sections: Seq<AnnotatedSectionView>,
    i: int,
    j: int,
    u: usize,
) -> bool {
    if j < i && !is_leaf(sections, sections[j]) && below(sections[i], sections[j].section.id) {
        waited_for(sections, j as nat).contains(u)
    } else if is_leaf(sections, sections[j]) {
        u == leaves_before(sections, j as nat)
    } else {
        exists|k: int|
            0 <= k < sections.len() && is_leaf(sections, #[trigger] sections[k]) && below(
                sections[k],
                sections[j].section.id,
            ) && u == leaves_before(sections, k as nat)
    }
}

/// What section `j` stands for: its own node where it is a leaf, else those of
/// the leaves below it.
proof fn standing_for_is(sections: Seq<AnnotatedSectionView>, j: int, u: usize)
    requires
        0 <= j < sections.len() <= usize::MAX,
    ensures
        standing_for(sections, j).contains(u) <==> if is_leaf(sections, sections[j]) {
            u == leaves_before(sections, j as nat)
        } else {
            exists|k: int|
                0 <= k < sections.len() && is_leaf(sections, #[trigger] sections[k]) && below(
                    sections[k],
                    sections[j].section.id,
                ) && u == leaves_before(sections, k as nat)
        },
{
    if is_leaf(sections, sections[j]) {
        leaves_are_counted(sections, j as nat, sections.len());
        assert(standing_for(sections, j)[0] == leaves_before(sections, j as nat));
    } else {
        leaves_below_is(sections, sections[j].section.id, sections.len(), u);
    }
}

/// The leaves listed below a heading are those that stand there.
proof fn leaves_below_is(sections: Seq<AnnotatedSectionView>, id: Seq<char>, n: nat, u: usize)
    requires
        n <= sections.len() <= usize::MAX,
    ensures
        leaves_below(sections, id, n).contains(u) <==> exists|k: int|
            0 <= k < n && is_leaf(sections, #[trigger] sections[k]) && below(sections[k], id) && u
                == leaves_before(sections, k as nat),
    decreases n,
{
    if n > 0 {
        let before = leaves_below(sections, id, (n - 1) as nat);
        let all = leaves_below(sections, id, n);
        leaves_below_is(sections, id, (n - 1) as nat, u);
        leaves_are_counted(sections, (n - 1) as nat, sections.len());
        if all != before {
            assert(all[before.len() as int] == leaves_before(sections, (n - 1) as nat));
            if before.contains(u) {
                let k = before.index_of(u);
                assert(all[k] == u);
            }
            if all.contains(u) && !before.contains(u) {
                let k = all.index_of(u);
                if k < before.len() {
                    assert(before[k] == u);
                }
                assert(is_leaf(sections, sections[n - 1]));
            }
        }
    }
}

/// What is united is what is in either.
proof fn united_is_either(listed: Seq<usize>, more: Seq<usize>, u: usize)
    ensures
        united(listed, more).contains(u) <==> listed.contains(u) || more.contains(u),
    decreases more.len(),
{
    if more.len() > 0 {
        let front = more.drop_last();
        let before = united(listed, front);
        united_is_either(listed, front, u);
        assert(more =~= front.push(more.last()));
        if more.contains(u) && u != more.last() {
            let k = more.index_of(u);
            assert(front[k] == u);
        }
        if front.contains(u) {
            let k = front.index_of(u);
            assert(more[k] == u);
        }
        assert(more[more.len() - 1] == more.last());
        if !before.contains(more.last()) {
            let all = before.push(more.last());
            assert(all[before.len() as int] == more.last());
            if before.contains(u) {
                let k = before.index_of(u);
                assert(all[k] == u);
            }
            if all.contains(u) && u != more.last() {
                let k = all.index_of(u);
                assert(before[k] == u);
            }
        }
    }
}

/// What is waited for is what the sections depended on bring.
proof fn depended_on_is(sections: Seq<AnnotatedSectionView>, i: int, ts: Seq<usize>)
    requires
        0 <= i < sections.len() <= usize::MAX,
        forall|m: int| 0 <= m < ts.len() ==> (#[trigger] ts[m]) < sections.len(),
    ensures
        forall|u: usize| #[trigger]
            depended_on(sections, i as nat, ts).contains(u) <==> exists|m: int|
                0 <= m < ts.len() && named_brings(sections, i, #[trigger] ts[m] as int, u),
    decreases ts.len(),
{
    if ts.len() > 0 {
        let front = ts.drop_last();
        let j = ts.last();
        let before = depended_on(sections, i as nat, front);
        let all = depended_on(sections, i as nat, ts);
        assert forall|m: int| 0 <= m < front.len() implies (#[trigger] front[m])
            < sections.len() by {
            assert(ts[m] < sections.len());
        }
        assert(ts[ts.len() - 1] < sections.len());
        depended_on_is(sections, i, front);
        assert forall|u: usize| #[trigger] all.contains(u) <==> exists|m: int|
            0 <= m < ts.len() && named_brings(sections, i, #[trigger] ts[m] as int, u) by {
            standing_for_is(sections, j as int, u);
            united_is_either(before, waited_for(sections, j as nat), u);
            assert((before + standing_for(sections, j as int)).contains(u) <==> before.contains(u)
                || standing_for(sections, j as int).contains(u)) by {
                concatenation_is_either(before, standing_for(sections, j as int), u);
            }
            assert(all.contains(u) <==> before.contains(u) || named_brings(
                sections,
                i,
                j as int,
                u,
            ));
            assert(before.contains(u) <==> exists|m: int|
                0 <= m < front.len() && named_brings(sections, i, #[trigger] front[m] as int, u));
            if before.contains(u) {
                let m = choose|m: int|
                    0 <= m < front.len() && named_brings(sections, i, #[trigger] front[m] as int, u);
                assert(named_brings(sections, i, ts[m] as int, u));
            }
            if named_brings(sections, i, j as int, u) {
                assert(named_brings(sections, i, ts[ts.len() - 1] as int, u));
            }
            if exists|m: int|
                0 <= m < ts.len() && named_brings(sections, i, #[trigger] ts[m] as int, u) {
                let m = choose|m: int|
                    0 <= m < ts.len() && named_brings(sections, i, #[trigger] ts[m] as int, u);
                if m < front.len() {
                    assert(named_brings(sections, i, front[m] as int, u));
                }
            }
        }
    }
}

/// What stands in one list behind another stands in either.
proof fn concatenation_is_either(a: Seq<usize>, b: Seq<usize>, u: usize)
    ensures
        (a + b).contains(u) <==> a.contains(u) || b.contains(u),
{
    if a.contains(u) {
        let k = a.index_of(u);
        assert((a + b)[k] == u);
    }
    if b.contains(u) {
        let k = b.index_of(u);
        assert((a + b)[a.len() + k] == u);
    }
    if (a + b).contains(u) {
        let k = (a + b).index_of(u);
        if k < a.len() {
            assert(a[k] == u);
        } else {
            assert(b[k - a.len()] == u);
        }
    }
}

/// A section is marked as parallel with exactly the nodes of the sections that
/// it says so of.
pub proof fn parallel_sections_are_marked(
    sections: Seq<AnnotatedSectionView>,
    i: int,
    ps: Seq<usize>,
    u: usize,
)
    requires
        0 <= i < sections.len() <= usize::MAX,
        resolved(section_ids(sections), sections[i].annotations.parallel_with) == Ok::<
            Seq<usize>,
            Seq<char>,
        >(ps),
    ensures
        ps.len() == sections[i].annotations.parallel_with.len(),
        forall|m: int|
            0 <= m < ps.len() ==> (#[trigger] ps[m]) < sections.len()
                && sections[ps[m] as int].section.id == sections[i].annotations.parallel_with[m],
        section_node(sections, i).parallel_with.contains(u) <==> exists|m: int|
            0 <= m < ps.len() && stood_for(sections, #[trigger] ps[m] as int, u),
{
    resolved_leads_there(section_ids(sections), sections[i].annotations.parallel_with);
    all_standing_for_is(sections, ps, u);
}

/// Node `u` is that of section `j`, or of a leaf below it.
pub open spec fn stood_for(sections: Seq<AnnotatedSectionView>, j: int, u: usize) -> bool {
    exists|k: int|
        0 <= k < sections.len() && is_leaf(sections, #[trigger] sections[k]) && u == leaves_before(
            sections,
            k as nat,
        ) && if is_leaf(sections, sections[j]) {
            k == j
        } else {
            below(sections[k], sections[j].section.id)
        }
}

/// What several sections stand for is what one of them stands for.
proof fn all_standing_for_is(sections: Seq<AnnotatedSectionView>, ts: Seq<usize>, u: usize)
    requires
        sections.len() <= usize::MAX,
        forall|m: int| 0 <= m < ts.len() ==> (#[trigger] ts[m]) < sections.len(),
    ensures
        all_standing_for(sections, ts).contains(u) <==> exists|m: int|
            0 <= m < ts.len() && stood_for(sections, #[trigger] ts[m] as int, u),
    decreases ts.len(),
{
    if ts.len() > 0 {
        let front = ts.drop_last();
        let j = ts.last() as int;
        assert forall|m: int| 0 <= m < front.len() implies (#[trigger] front[m])
            < sections.len() by {
            assert(ts[m] < sections.len());
        }
        assert(ts[ts.len() - 1] < sections.len());
        all_standing_for_is(sections, front, u);
        standing_for_is(sections, j, u);
        concatenation_is_either(
            all_standing_for(sections, front),
            standing_for(sections, j),
            u,
        );
        assert(standing_for(sections, j).contains(u) <==> stood_for(sections, j, u)) by {
            if is_leaf(sections, sections[j]) && u == leaves_before(sections, j as nat) {
                assert(stood_for(sections, j, u));
            }
        }
        if stood_for(sections, j, u) {
            assert(stood_for(sections, ts[ts.len() - 1] as int, u));
        }
        if exists|m: int| 0 <= m < front.len() && stood_for(sections, #[trigger] front[m] as int, u) {
            let m = choose|m: int|
                0 <= m < front.len() && stood_for(sections, #[trigger] front[m] as int, u);
            assert(stood_for(sections, ts[m] as int, u));
        }
        if exists|m: int| 0 <= m < ts.len() && stood_for(sections, #[trigger] ts[m] as int, u) {
            let m = choose|m: int|
                0 <= m < ts.len() && stood_for(sections, #[trigger] ts[m] as int, u);
            if m < front.len() {
                assert(stood_for(sections, front[m] as int, u));
            }
        }
    }
}

/// A section stands below a heading where its parent's id is the heading's, or
/// goes on from it behind a dot.
pub proof fn below_goes_by_the_dots(s: AnnotatedSectionView, id: Seq<char>)
    ensures
        below(s, id) <==> exists|p: Seq<char>|
            s.section.parent == Some(p) && (p == id || (p.len() > id.len() && #[trigger] p.take(
                id.len() as int,
            ) == id && p[id.len() as int] == '.')),
{
    reveal_strlit(".");
    if let Some(p) = s.section.parent {
        assert(p.take(id.len() as int) == p.take(id.len() as int));
        let start = id + "."@;
        if p.len() > id.len() && p.take(id.len() as int) == id && p[id.len() as int] == '.' {
            assert(p.subrange(0, start.len() as int) =~= start);
        }
        if text::begins(p, start) {
            assert(p.take(id.len() as int) =~= id) by {
                assert forall|k: int| 0 <= k < id.len() implies p[k] == id[k] by {
                    assert(p.subrange(0, start.len() as int)[k] == start[k]);
                }
            }
            assert(p.subrange(0, start.len() as int)[id.len() as int] == start[id.len() as int]);
        }
    }
}

} // verus!
