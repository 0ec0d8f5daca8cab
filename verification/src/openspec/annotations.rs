//! Parse `<!-- clhorde: ... -->` directives next to section headers and task
//! lines.
//!
//! ```markdown
//! ## 3. Tests <!-- clhorde: depends 2; parallel-with 4 -->
//! - [ ] 3.2 E2E <!-- clhorde: needs 2.1 -->
//! ```
//!
//! Several directives in one comment are separated by `;`. Each directive is a
//! key and a value; a value that is a list has its parts between commas or
//! white space. The recognized keys are `depends`, `parallel-with`,
//! `granularity` (`section`, `task` or `phase`), `prompt-template` and, on a
//! task line, `needs`. Unknown keys are ignored, and an empty value counts as
//! missing.

use vstd::prelude::*;
use vstd::string::*;

use super::tasks_parser::{Section, SectionView, TaskGraph, TaskItem, TaskItemView};
use crate::text;

verus! {

/// The unit of work that a workflow is cut into.
#[derive(Debug, Clone, Copy, PartialEq, Eq, Structural)]
pub enum Granularity {
    Section,
    Task,
    Phase,
}

impl Default for Granularity {
    fn default() -> (r: Self)
        ensures
            r == Granularity::Section,
    {
        Granularity::Section
    }
}

/// The granularity that a word names.
pub open spec fn granularity_named(s: Seq<char>) -> Option<Granularity> {
    let t = text::trimmed(s);
    if t == "section"@ {
        Some(Granularity::Section)
    } else if t == "task"@ {
        Some(Granularity::Task)
    } else if t == "phase"@ {
        Some(Granularity::Phase)
    } else {
        None
    }
}

impl Granularity {
    /// The granularity that a word names.
    pub fn parse(s: &str) -> (r: Option<Granularity>)
        ensures
            r == granularity_named(s@),
    {
        let t: &str = text::trim(s);
        if text::same(t, "section") {
            Some(Granularity::Section)
        } else if text::same(t, "task") {
            Some(Granularity::Task)
        } else if text::same(t, "phase") {
            Some(Granularity::Phase)
        } else {
            None
        }
    }
}

/// The directives on a heading line.
#[derive(Debug, Clone, PartialEq)]
pub struct SectionAnnotations {
    /// Ids of the sections that this one runs after.
    pub depends: Vec<String>,
    /// Ids of the sections that may run beside this one.
    pub parallel_with: Vec<String>,
    pub granularity: Option<Granularity>,
    pub prompt_template: Option<String>,
}

/// The directives on a task line.
#[derive(Debug, Clone, PartialEq)]
pub struct TaskAnnotations {
    /// Ids of the tasks that this one runs after.
    pub needs: Vec<String>,
}

/// A section with the directives of its heading and of its tasks. Its own
/// `items` are moved into the annotated tasks.
#[derive(Debug, Clone, PartialEq)]
pub struct AnnotatedSection {
    pub section: Section,
    pub annotations: SectionAnnotations,
    pub items: Vec<AnnotatedTask>,
}

/// A task with the directives of its line.
#[derive(Debug, Clone, PartialEq)]
pub struct AnnotatedTask {
    pub task: TaskItem,
    pub annotations: TaskAnnotations,
}

/// What a [`SectionAnnotations`] holds.
pub ghost struct SectionAnnotationsView {
    pub depends: Seq<Seq<char>>,
    pub parallel_with: Seq<Seq<char>>,
    pub granularity: Option<Granularity>,
    pub prompt_template: Option<Seq<char>>,
}

/// What an [`AnnotatedTask`] holds.
pub ghost struct AnnotatedTaskView {
    pub task: TaskItemView,
    pub needs: Seq<Seq<char>>,
}

/// What an [`AnnotatedSection`] holds.
pub ghost struct AnnotatedSectionView {
    pub section: SectionView,
    pub annotations: SectionAnnotationsView,
    pub items: Seq<AnnotatedTaskView>,
}

impl View for SectionAnnotations {
    type V = SectionAnnotationsView;

    open spec fn view(&self) -> SectionAnnotationsView {
        SectionAnnotationsView {
            depends: text::texts(self.depends@),
            parallel_with: text::texts(self.parallel_with@),
            granularity: self.granularity,
            prompt_template: text::text_option(self.prompt_template),
        }
    }
}

impl View for TaskAnnotations {
    type V = Seq<Seq<char>>;

    open spec fn view(&self) -> Seq<Seq<char>> {
        text::texts(self.needs@)
    }
}

impl View for AnnotatedTask {
    type V = AnnotatedTaskView;

    open spec fn view(&self) -> AnnotatedTaskView {
        AnnotatedTaskView { task: self.task@, needs: self.annotations@ }
    }
}

impl View for AnnotatedSection {
    type V = AnnotatedSectionView;

    open spec fn view(&self) -> AnnotatedSectionView {
        AnnotatedSectionView {
            section: self.section@,
            annotations: self.annotations@,
            items: annotated_items(self.items@),
        }
    }
}

/// What the annotated tasks of a list hold.
pub open spec fn annotated_items(items: Seq<AnnotatedTask>) -> Seq<AnnotatedTaskView> {
    items.map_values(|t: AnnotatedTask| t@)
}

/// What the annotated sections of a list hold.
pub open spec fn annotated_views(sections: Seq<AnnotatedSection>) -> Seq<AnnotatedSectionView> {
    sections.map_values(|s: AnnotatedSection| s@)
}

/// No directives.
pub open spec fn no_annotations() -> SectionAnnotationsView {
    SectionAnnotationsView {
        depends: Seq::empty(),
        parallel_with: Seq::empty(),
        granularity: None,
        prompt_template: None,
    }
}

impl Default for SectionAnnotations {
    fn default() -> (r: Self)
        ensures
            r@ == no_annotations(),
    {
        let r = SectionAnnotations {
            depends: Vec::new(),
            parallel_with: Vec::new(),
            granularity: None,
            prompt_template: None,
        };
        proof {
            assert(r@.depends =~= Seq::<Seq<char>>::empty());
            assert(r@.parallel_with =~= Seq::<Seq<char>>::empty());
        }
        r
    }
}

impl Default for TaskAnnotations {
    fn default() -> (r: Self)
        ensures
            r@ == Seq::<Seq<char>>::empty(),
    {
        let r = TaskAnnotations { needs: Vec::new() };
        proof {
            assert(r@ =~= Seq::<Seq<char>>::empty());
        }
        r
    }
}

// ---------------------------------------------------------------------
// The directives of a line
// ---------------------------------------------------------------------

/// The text of every `<!-- clhorde: ... -->` comment of a line, in order.
pub open spec fn bodies(line: Seq<char>) -> Seq<Seq<char>>
    decreases line.len(),
    via bodies_decreases
{
    match text::find(line, "<!--"@) {
        None => Seq::empty(),
        Some(open) => match text::find_from(line, "-->"@, open + 4) {
            None => Seq::empty(),
            Some(close) => {
                let inner = text::trimmed(line.subrange(open + 4, close));
                let rest = bodies(line.skip(close + 3));
                if text::begins(inner, "clhorde:"@) {
                    seq![text::trimmed(inner.skip(8))] + rest
                } else {
                    rest
                }
            },
        },
    }
}

#[via_fn]
proof fn bodies_decreases(line: Seq<char>) {
    reveal_strlit("<!--");
    reveal_strlit("-->");
    text::find_from_is_first(line, "<!--"@, 0);
    match text::find(line, "<!--"@) {
        None => {},
        Some(open) => {
            text::find_from_is_first(line, "-->"@, open + 4);
        },
    }
}

/// The key of a directive, up to its first white space, and its value.
pub open spec fn directive(chunk: Seq<char>) -> (Seq<char>, Seq<char>) {
    let n = text::span(chunk, |c: char| !text::white(c));
    (chunk.take(n), text::trimmed(chunk.skip(n)))
}

/// The directives among the pieces of a comment: those that hold more than
/// white space.
pub open spec fn directives_among(pieces: Seq<Seq<char>>) -> Seq<(Seq<char>, Seq<char>)>
    decreases pieces.len(),
{
    if pieces.len() == 0 {
        Seq::empty()
    } else {
        let before = directives_among(pieces.drop_last());
        let chunk = text::trimmed(pieces.last());
        if chunk.len() == 0 {
            before
        } else {
            before.push(directive(chunk))
        }
    }
}

/// The directives of a comment, in order.
pub open spec fn directives(body: Seq<char>) -> Seq<(Seq<char>, Seq<char>)> {
    directives_among(text::split_by(body, text::separator(';', false)))
}

/// The pieces that hold something.
pub open spec fn tokens(pieces: Seq<Seq<char>>) -> Seq<Seq<char>>
    decreases pieces.len(),
{
    if pieces.len() == 0 {
        Seq::empty()
    } else {
        let before = tokens(pieces.drop_last());
        let t = text::trimmed(pieces.last());
        if t.len() == 0 {
            before
        } else {
            before.push(t)
        }
    }
}

/// The parts of a list, between commas or white space.
pub open spec fn values(value: Seq<char>) -> Seq<Seq<char>> {
    tokens(text::split_by(value, text::separator(',', true)))
}

/// The directives of all the comments, in order.
pub open spec fn all_directives(bs: Seq<Seq<char>>) -> Seq<(Seq<char>, Seq<char>)>
    decreases bs.len(),
{
    if bs.len() == 0 {
        Seq::empty()
    } else {
        all_directives(bs.drop_last()) + directives(bs.last())
    }
}

/// The directives of a line, in order.
pub open spec fn line_directives(line: Seq<char>) -> Seq<(Seq<char>, Seq<char>)> {
    all_directives(bodies(line))
}

/// `a` with one more directive taken in.
pub open spec fn with_directive(
    a: SectionAnnotationsView,
    d: (Seq<char>, Seq<char>),
) -> SectionAnnotationsView {
    let (key, value) = d;
    if key == "depends"@ {
        SectionAnnotationsView { depends: a.depends + values(value), ..a }
    } else if key == "parallel-with"@ {
        SectionAnnotationsView { parallel_with: a.parallel_with + values(value), ..a }
    } else if key == "granularity"@ {
        match granularity_named(value) {
            Some(g) => SectionAnnotationsView { granularity: Some(g), ..a },
            None => a,
        }
    } else if key == "prompt-template"@ {
        let v = text::trimmed(value);
        if v.len() == 0 {
            a
        } else {
            SectionAnnotationsView { prompt_template: Some(v), ..a }
        }
    } else {
        a
    }
}

/// What a run of directives says of a section: lists add up, and of the others
/// the last one counts.
pub open spec fn section_annotations(
    ds: Seq<(Seq<char>, Seq<char>)>,
) -> SectionAnnotationsView
    decreases ds.len(),
{
    if ds.len() == 0 {
        no_annotations()
    } else {
        with_directive(section_annotations(ds.drop_last()), ds.last())
    }
}

/// What a run of directives says that a task needs.
pub open spec fn task_needs(ds: Seq<(Seq<char>, Seq<char>)>) -> Seq<Seq<char>>
    decreases ds.len(),
{
    if ds.len() == 0 {
        Seq::empty()
    } else {
        let before = task_needs(ds.drop_last());
        let (key, value) = ds.last();
        if key == "needs"@ {
            before + values(value)
        } else {
            before
        }
    }
}

/// A list of key-value pairs by its characters.
pub open spec fn pairs(v: Seq<(&str, &str)>) -> Seq<(Seq<char>, Seq<char>)> {
    v.map_values(|p: (&str, &str)| (p.0@, p.1@))
}

/// The text of every `<!-- clhorde: ... -->` comment on `line`.
pub fn extract_clhorde_bodies(line: &str) -> (r: Vec<&str>)
    ensures
        text::slices(r@) == bodies(line@),
{
    let len: usize = line.unicode_len();
    let mut out: Vec<&str> = Vec::new();
    let mut from: usize = 0;
    proof {
        reveal_strlit("<!--");
        reveal_strlit("-->");
        reveal_strlit("clhorde:");
        assert(line@.skip(0) =~= line@);
        assert(text::slices(out@) + bodies(line@) =~= bodies(line@));
    }
    while from <= len
        invariant
            len == line@.len(),
            from <= len,
            "<!--"@.len() == 4,
            "-->"@.len() == 3,
            "clhorde:"@.len() == 8,
            text::slices(out@) + bodies(line@.skip(from as int)) == bodies(line@),
        decreases len - from,
    {
        let rest: &str = line.substring_char(from, len);
        let cs: Vec<char> = text::chars_of(rest);
        let ghost done = text::slices(out@);
        proof {
            assert(rest@ =~= line@.skip(from as int));
        }
        let open: usize = match text::find_chars(&cs, "<!--", 0) {
            Some(i) => i,
            None => {
                proof {
                    assert(done + bodies(rest@) =~= done);
                }
                return out;
            },
        };
        let close: usize = match text::find_chars(&cs, "-->", open + 4) {
            Some(i) => i,
            None => {
                proof {
                    assert(done + bodies(rest@) =~= done);
                }
                return out;
            },
        };
        let inner: &str = text::trim(rest.substring_char(open + 4, close));
        proof {
            assert(rest@.skip(close + 3) =~= line@.skip(from + close + 3));
        }
        if text::starts_with(inner, "clhorde:") {
            let tail: &str = inner.substring_char(8, inner.unicode_len());
            proof {
                assert(tail@ =~= inner@.skip(8));
            }
            let body: &str = text::trim(tail);
            out.push(body);
            proof {
                assert(text::slices(out@) =~= done.push(body@));
                assert(text::slices(out@) + bodies(rest@.skip(close + 3)) =~= done + (
                seq![body@] + bodies(rest@.skip(close + 3))));
            }
        }
        from = from + close + 3;
    }
    out
}

/// The first white space in `chunk` ends the key of a directive.
fn split_directive(chunk: &str) -> (r: (&str, &str))
    ensures
        (r.0@, r.1@) == directive(chunk@),
{
    let cs: Vec<char> = text::chars_of(chunk);
    let mut n: usize = 0;
    while n < cs.len() && !text::is_white(cs[n])
        invariant
            cs@ == chunk@,
            n <= cs.len(),
            forall|k: int| 0 <= k < n ==> !text::white(#[trigger] cs@[k]),
        decreases cs.len() - n,
    {
        n = n + 1;
    }
    proof {
        text::span_is(chunk@, |c: char| !text::white(c), n as int);
        assert(chunk@.subrange(0, n as int) =~= chunk@.take(n as int));
        assert(chunk@.subrange(n as int, chunk@.len() as int) =~= chunk@.skip(n as int));
    }
    (chunk.substring_char(0, n), text::trim(chunk.substring_char(n, cs.len())))
}

/// Split a comment body like `"depends 2; parallel-with 4"` into
/// `(key, value)` pairs.
pub fn split_directives(body: &str) -> (r: Vec<(&str, &str)>)
    ensures
        pairs(r@) == directives(body@),
{
    let pieces: Vec<&str> = text::split(body, ';', false);
    let ghost all = text::slices(pieces@);
    let mut out: Vec<(&str, &str)> = Vec::new();
    let mut i: usize = 0;
    proof {
        assert(all.take(0) =~= Seq::<Seq<char>>::empty());
        assert(pairs(out@) =~= Seq::<(Seq<char>, Seq<char>)>::empty());
    }
    while i < pieces.len()
        invariant
            all == text::slices(pieces@),
            i <= pieces.len(),
            pairs(out@) == directives_among(all.take(i as int)),
        decreases pieces.len() - i,
    {
        let chunk: &str = text::trim(pieces[i]);
        let ghost before = pairs(out@);
        proof {
            assert(all.take(i + 1).drop_last() =~= all.take(i as int));
            assert(all.take(i + 1).last() == pieces@[i as int]@);
        }
        if !chunk.is_empty() {
            let d: (&str, &str) = split_directive(chunk);
            out.push(d);
            proof {
                assert(pairs(out@) =~= before.push((d.0@, d.1@)));
            }
        }
        i = i + 1;
    }
    proof {
        assert(all.take(all.len() as int) =~= all);
    }
    out
}

/// Split a list like `"2, 3"` or `"2 3"` into its parts, which go behind what
/// `out` holds.
fn split_values(value: &str, out: &mut Vec<String>)
    ensures
        text::texts(final(out)@) == text::texts(old(out)@) + values(value@),
{
    let pieces: Vec<&str> = text::split(value, ',', true);
    let ghost all = text::slices(pieces@);
    let ghost first = text::texts(out@);
    let mut i: usize = 0;
    proof {
        assert(all.take(0) =~= Seq::<Seq<char>>::empty());
        assert(first + tokens(all.take(0)) =~= first);
    }
    while i < pieces.len()
        invariant
            all == text::slices(pieces@),
            i <= pieces.len(),
            text::texts(out@) == first + tokens(all.take(i as int)),
        decreases pieces.len() - i,
    {
        let t: &str = text::trim(pieces[i]);
        let ghost before = text::texts(out@);
        let ghost seen = tokens(all.take(i as int));
        proof {
            assert(all.take(i + 1).drop_last() =~= all.take(i as int));
            assert(all.take(i + 1).last() == pieces@[i as int]@);
        }
        if !t.is_empty() {
            out.push(text::owned(t));
            proof {
                assert(text::texts(out@) =~= before.push(t@));
                assert(before.push(t@) =~= first + seen.push(t@));
            }
        }
        i = i + 1;
    }
    proof {
        assert(all.take(all.len() as int) =~= all);
    }
}

/// The directives of `line`, in order.
fn directives_on(line: &str) -> (r: Vec<(&str, &str)>)
    ensures
        pairs(r@) == line_directives(line@),
{
    let bs: Vec<&str> = extract_clhorde_bodies(line);
    let ghost all = text::slices(bs@);
    let mut out: Vec<(&str, &str)> = Vec::new();
    let mut i: usize = 0;
    proof {
        assert(all.take(0) =~= Seq::<Seq<char>>::empty());
        assert(pairs(out@) =~= Seq::<(Seq<char>, Seq<char>)>::empty());
    }
    while i < bs.len()
        invariant
            all == text::slices(bs@),
            i <= bs.len(),
            pairs(out@) == all_directives(all.take(i as int)),
        decreases bs.len() - i,
    {
        let mut ds: Vec<(&str, &str)> = split_directives(bs[i]);
        let ghost before = out@;
        let ghost more = ds@;
        out.append(&mut ds);
        proof {
            assert(all.take(i + 1).drop_last() =~= all.take(i as int));
            assert(all.take(i + 1).last() == bs@[i as int]@);
            assert(pairs(out@) =~= pairs(before) + pairs(more));
        }
        i = i + 1;
    }
    proof {
        assert(all.take(all.len() as int) =~= all);
    }
    out
}

/// The directives of a heading line.
pub fn parse_section(line: &str) -> (r: SectionAnnotations)
    ensures
        r@ == section_annotations(line_directives(line@)),
{
    let ds: Vec<(&str, &str)> = directives_on(line);
    let ghost all = pairs(ds@);
    let mut out: SectionAnnotations = SectionAnnotations::default();
    let mut i: usize = 0;
    proof {
        assert(all.take(0) =~= Seq::<(Seq<char>, Seq<char>)>::empty());
    }
    while i < ds.len()
        invariant
            all == pairs(ds@),
            i <= ds.len(),
            out@ == section_annotations(all.take(i as int)),
        decreases ds.len() - i,
    {
        let (key, value): (&str, &str) = ds[i];
        proof {
            assert(all.take(i + 1).drop_last() =~= all.take(i as int));
            assert(all.take(i + 1).last() == (key@, value@));
        }
        if text::same(key, "depends") {
            split_values(value, &mut out.depends);
        } else if text::same(key, "parallel-with") {
            split_values(value, &mut out.parallel_with);
        } else if text::same(key, "granularity") {
            match Granularity::parse(value) {
                Some(g) => {
                    out.granularity = Some(g);
                },
                None => {},
            }
        } else if text::same(key, "prompt-template") {
            let v: &str = text::trim(value);
            if !v.is_empty() {
                out.prompt_template = Some(text::owned(v));
            }
        }
        i = i + 1;
    }
    proof {
        assert(all.take(all.len() as int) =~= all);
    }
    out
}

/// The directives of a task line.
pub fn parse_task(line: &str) -> (r: TaskAnnotations)
    ensures
        r@ == task_needs(line_directives(line@)),
{
    let ds: Vec<(&str, &str)> = directives_on(line);
    let ghost all = pairs(ds@);
    let mut out: TaskAnnotations = TaskAnnotations::default();
    let mut i: usize = 0;
    proof {
        assert(all.take(0) =~= Seq::<(Seq<char>, Seq<char>)>::empty());
    }
    while i < ds.len()
        invariant
            all == pairs(ds@),
            i <= ds.len(),
            out@ == task_needs(all.take(i as int)),
        decreases ds.len() - i,
    {
        let (key, value): (&str, &str) = ds[i];
        proof {
            assert(all.take(i + 1).drop_last() =~= all.take(i as int));
            assert(all.take(i + 1).last() == (key@, value@));
        }
        if text::same(key, "needs") {
            split_values(value, &mut out.needs);
        }
        i = i + 1;
    }
    proof {
        assert(all.take(all.len() as int) =~= all);
    }
    out
}

/// A task with the directives of its source line.
pub open spec fn annotated_task(t: TaskItemView) -> AnnotatedTaskView {
    AnnotatedTaskView { task: t, needs: task_needs(line_directives(t.source_line)) }
}

/// A section with the directives of its source line and of its tasks.
pub open spec fn annotated(s: SectionView) -> AnnotatedSectionView {
    AnnotatedSectionView {
        section: SectionView { items: Seq::empty(), ..s },
        annotations: section_annotations(line_directives(s.source_line)),
        items: s.items.map_values(|t: TaskItemView| annotated_task(t)),
    }
}

/// Attach to every section and task of a [`TaskGraph`] the directives of its
/// source line. Malformed comments are ignored.
pub fn annotate(graph: TaskGraph) -> (r: Vec<AnnotatedSection>)
    ensures
        annotated_views(r@) == super::tasks_parser::section_views(graph.sections@).map_values(
            |s: SectionView| annotated(s),
        ),
{
    let mut out: Vec<AnnotatedSection> = Vec::new();
    let ghost all = super::tasks_parser::section_views(graph.sections@);
    let mut i: usize = 0;
    let sections: Vec<Section> = graph.sections;
    while i < sections.len()
        invariant
            all == super::tasks_parser::section_views(sections@),
            i <= sections.len(),
            out@.len() == i,
            forall|k: int| 0 <= k < i ==> (#[trigger] out@[k])@ == annotated(all[k]),
        decreases sections.len() - i,
    {
        let s: &Section = &sections[i];
        let annotations: SectionAnnotations = parse_section(s.source_line.as_str());
        let mut items: Vec<AnnotatedTask> = Vec::new();
        let mut j: usize = 0;
        while j < s.items.len()
            invariant
                j <= s.items.len(),
                items@.len() == j,
                forall|k: int|
                    0 <= k < j ==> (#[trigger] items@[k])@ == annotated_task(s.items@[k]@),
            decreases s.items.len() - j,
        {
            let t: TaskItem = s.items[j].clone();
            let task_annotations: TaskAnnotations = parse_task(t.source_line.as_str());
            items.push(AnnotatedTask { task: t, annotations: task_annotations });
            j = j + 1;
        }
        let section: Section = Section {
            id: s.id.clone(),
            title: s.title.clone(),
            level: s.level,
            parent: s.parent.clone(),
            items: Vec::new(),
            line: s.line,
            source_line: s.source_line.clone(),
        };
        proof {
            assert(section@.items =~= Seq::<TaskItemView>::empty());
            assert(annotated_items(items@) =~= annotated(s@).items);
        }
        out.push(AnnotatedSection { section, annotations, items });
        i = i + 1;
    }
    proof {
        assert(annotated_views(out@) =~= all.map_values(|s: SectionView| annotated(s)));
    }
    out
}

// ---------------------------------------------------------------------
// What directives come to
// ---------------------------------------------------------------------

/// A granularity goes by its word, whatever white space stands around it.
pub proof fn granularities_go_by_their_words(s: Seq<char>)
    ensures
        granularity_named(s) == Some(Granularity::Section) <==> text::trimmed(s) == "section"@,
        granularity_named(s) == Some(Granularity::Task) <==> text::trimmed(s) == "task"@,
        granularity_named(s) == Some(Granularity::Phase) <==> text::trimmed(s) == "phase"@,
{
    reveal_strlit("section");
    reveal_strlit("task");
    reveal_strlit("phase");
    assert("section"@.len() == 7 && "task"@.len() == 4 && "phase"@.len() == 5);
}

/// Lists add up over comments and directives; of the granularity and of the
/// template, the last that is set counts.
pub proof fn directives_add_up(
    a: Seq<(Seq<char>, Seq<char>)>,
    b: Seq<(Seq<char>, Seq<char>)>,
)
    ensures
        ({
            let x = section_annotations(a);
            let y = section_annotations(b);
            let z = section_annotations(a + b);
            &&& z.depends == x.depends + y.depends
            &&& z.parallel_with == x.parallel_with + y.parallel_with
            &&& z.granularity == if y.granularity is Some {
                y.granularity
            } else {
                x.granularity
            }
            &&& z.prompt_template == if y.prompt_template is Some {
                y.prompt_template
            } else {
                x.prompt_template
            }
        }),
        task_needs(a + b) == task_needs(a) + task_needs(b),
    decreases b.len(),
{
    let all = a + b;
    if b.len() == 0 {
        assert(all =~= a);
        assert(section_annotations(a).depends + Seq::<Seq<char>>::empty()
            =~= section_annotations(a).depends);
        assert(section_annotations(a).parallel_with + Seq::<Seq<char>>::empty()
            =~= section_annotations(a).parallel_with);
        assert(task_needs(a) + Seq::<Seq<char>>::empty() =~= task_needs(a));
    } else {
        let front = b.drop_last();
        directives_add_up(a, front);
        assert(all.drop_last() =~= a + front);
        assert(all.last() == b.last());
        let v = values(b.last().1);
        let x = section_annotations(a);
        let y = section_annotations(front);
        assert(x.depends + y.depends + v =~= x.depends + (y.depends + v));
        assert(x.parallel_with + y.parallel_with + v =~= x.parallel_with + (y.parallel_with + v));
        assert(task_needs(a) + task_needs(front) + v =~= task_needs(a) + (task_needs(front) + v));
    }
}

/// Each directive sets what it names and nothing else; one that names nothing
/// known sets nothing.
pub proof fn directives_set_what_they_name(key: Seq<char>, value: Seq<char>)
    ensures
        ({
            let a = section_annotations(seq![(key, value)]);
            let none = Seq::<Seq<char>>::empty();
            &&& a.depends == if key == "depends"@ {
                values(value)
            } else {
                none
            }
            &&& a.parallel_with == if key == "parallel-with"@ {
                values(value)
            } else {
                none
            }
            &&& a.granularity == if key == "granularity"@ {
                granularity_named(value)
            } else {
                None
            }
            &&& a.prompt_template == if key == "prompt-template"@ && text::trimmed(value).len()
                > 0 {
                Some(text::trimmed(value))
            } else {
                None
            }
            &&& task_needs(seq![(key, value)]) == if key == "needs"@ {
                values(value)
            } else {
                none
            }
        }),
{
    let one = seq![(key, value)];
    let none = Seq::<Seq<char>>::empty();
    assert(one.drop_last() =~= Seq::<(Seq<char>, Seq<char>)>::empty());
    reveal_with_fuel(section_annotations, 2);
    reveal_with_fuel(task_needs, 2);
    assert(none + values(value) =~= values(value));
    reveal_strlit("depends");
    reveal_strlit("parallel-with");
    reveal_strlit("granularity");
    reveal_strlit("prompt-template");
    assert("depends"@.len() == 7 && "parallel-with"@.len() == 13 && "granularity"@.len() == 11
        && "prompt-template"@.len() == 15);
}

/// A comma or white space parts the values of a list, a word without either is
/// one value, and nothing at all is none.
pub proof fn values_are_parted(a: Seq<char>, c: char, b: Seq<char>, word: Seq<char>)
    requires
        c == ',' || text::white(c),
        word.len() > 0,
        forall|k: int| 0 <= k < word.len() ==> (#[trigger] word[k]) != ',' && !text::white(word[k]),
    ensures
        values(a + seq![c] + b) == values(a) + values(b),
        values(word) == seq![word],
        values(Seq::<char>::empty()) == Seq::<Seq<char>>::empty(),
{
    let sep = text::separator(',', true);
    let none = Seq::<char>::empty();
    text::splitting_at_a_separator(a, c, b, sep);
    tokens_add_up(text::split_by(a, sep), text::split_by(b, sep));
    text::splitting_without_separator(word, sep);
    assert(word =~= none + word + none);
    text::trimming_gives_back(none, word, none);
    let one = seq![word];
    assert(one.drop_last() =~= Seq::<Seq<char>>::empty());
    reveal_with_fuel(tokens, 2);
    assert(values(word) =~= seq![word]);
    text::splitting_without_separator(none, sep);
    assert(none =~= none + none + none);
    text::trimming_gives_back(none, none, none);
    assert(seq![none].drop_last() =~= Seq::<Seq<char>>::empty());
    assert(values(none) =~= Seq::<Seq<char>>::empty());
}

/// The tokens of two lists are those of the first and those of the second.
proof fn tokens_add_up(a: Seq<Seq<char>>, b: Seq<Seq<char>>)
    ensures
        tokens(a + b) == tokens(a) + tokens(b),
    decreases b.len(),
{
    let all = a + b;
    if b.len() == 0 {
        assert(all =~= a);
        assert(tokens(a) + tokens(b) =~= tokens(a));
    } else {
        tokens_add_up(a, b.drop_last());
        assert(all.drop_last() =~= a + b.drop_last());
        assert(tokens(all) =~= tokens(a) + tokens(b));
    }
}

/// A semicolon parts the directives of a comment.
pub proof fn directives_are_parted(a: Seq<char>, b: Seq<char>)
    ensures
        directives(a + seq![';'] + b) == directives(a) + directives(b),
{
    let sep = text::separator(';', false);
    text::splitting_at_a_separator(a, ';', b, sep);
    directives_among_add_up(text::split_by(a, sep), text::split_by(b, sep));
}

/// The directives of two lists are those of the first and those of the second.
proof fn directives_among_add_up(a: Seq<Seq<char>>, b: Seq<Seq<char>>)
    ensures
        directives_among(a + b) == directives_among(a) + directives_among(b),
    decreases b.len(),
{
    let all = a + b;
    if b.len() == 0 {
        assert(all =~= a);
        assert(directives_among(a) + directives_among(b) =~= directives_among(a));
    } else {
        directives_among_add_up(a, b.drop_last());
        assert(all.drop_last() =~= a + b.drop_last());
        assert(directives_among(all) =~= directives_among(a) + directives_among(b));
    }
}

/// All of these characters are white space.
pub open spec fn blank(s: Seq<char>) -> bool {
    forall|k: int| 0 <= k < s.len() ==> text::white(#[trigger] s[k])
}

/// A directive is read back: its key is what stands before the first white
/// space, its value what stands behind it.
pub proof fn directive_is_read_back(
    before: Seq<char>,
    key: Seq<char>,
    gap: Seq<char>,
    value: Seq<char>,
    after: Seq<char>,
)
    requires
        blank(before),
        blank(gap),
        blank(after),
        gap.len() > 0,
        key.len() > 0,
        forall|k: int| 0 <= k < key.len() ==> !text::white(#[trigger] key[k]) && key[k] != ';',
        value.len() > 0,
        !text::white(value[0]),
        !text::white(value.last()),
        forall|k: int| 0 <= k < value.len() ==> (#[trigger] value[k]) != ';',
    ensures
        directives(before + key + gap + value + after) == seq![(key, value)],
{
    let body = before + key + gap + value + after;
    let sep = text::separator(';', false);
    let chunk = key + gap + value;
    assert forall|k: int| 0 <= k < body.len() implies !sep(#[trigger] body[k]) by {
        let n1 = before.len();
        let n2 = n1 + key.len();
        let n3 = n2 + gap.len();
        let n4 = n3 + value.len();
        if k < n1 {
            assert(body[k] == before[k]);
        } else if k < n2 {
            assert(body[k] == key[k - n1]);
        } else if k < n3 {
            assert(body[k] == gap[k - n2]);
        } else if k < n4 {
            assert(body[k] == value[k - n3]);
        } else {
            assert(body[k] == after[k - n4]);
        }
    }
    text::splitting_without_separator(body, sep);
    assert(body =~= before + chunk + after);
    assert(chunk[0] == key[0]);
    assert(chunk.last() == value.last());
    text::trimming_gives_back(before, chunk, after);
    let f = |c: char| !text::white(c);
    assert forall|k: int| 0 <= k < key.len() implies f(chunk[k]) by {
        assert(chunk[k] == key[k]);
    }
    assert(chunk[key.len() as int] == gap[0]);
    text::span_is(chunk, f, key.len() as int);
    assert(chunk.take(key.len() as int) =~= key);
    let none = Seq::<char>::empty();
    assert(chunk.skip(key.len() as int) =~= gap + value + none);
    text::trimming_gives_back(gap, value, none);
    let one = seq![body];
    assert(one.drop_last() =~= Seq::<Seq<char>>::empty());
    reveal_with_fuel(directives_among, 2);
    assert(directives(body) =~= seq![(key, value)]);
}

/// The comment of this program on a line is read back, and so are those behind
/// it. Other comments are passed over.
pub proof fn comments_are_read_back(
    front: Seq<char>,
    body: Seq<char>,
    rest: Seq<char>,
    other: Seq<char>,
)
    requires
        text::find(front + "<!--"@, "<!--"@) == Some(front.len() as int),
        text::find(body + "-->"@, "-->"@) == Some(body.len() as int),
        text::find(other + "-->"@, "-->"@) == Some(other.len() as int),
        !text::begins(text::trimmed(other), "clhorde:"@),
    ensures
        bodies(front + "<!--"@ + other + "-->"@ + rest) == bodies(rest),
        text::begins(text::trimmed(body), "clhorde:"@) ==> bodies(
            front + "<!--"@ + body + "-->"@ + rest,
        ) == seq![text::trimmed(text::trimmed(body).skip(8))] + bodies(rest),
        text::find(front, "<!--"@) is None ==> bodies(front) == Seq::<Seq<char>>::empty(),
{
    comment_is_found(front, other, rest);
    comment_is_found(front, body, rest);
}

/// The first comment of a line is where it begins and ends.
proof fn comment_is_found(front: Seq<char>, body: Seq<char>, rest: Seq<char>)
    requires
        text::find(front + "<!--"@, "<!--"@) == Some(front.len() as int),
        text::find(body + "-->"@, "-->"@) == Some(body.len() as int),
    ensures
        ({
            let line = front + "<!--"@ + body + "-->"@ + rest;
            let n = front.len() as int;
            &&& text::find(line, "<!--"@) == Some(n)
            &&& text::find_from(line, "-->"@, n + 4) == Some(n + 4 + body.len())
            &&& line.subrange(n + 4, n + 4 + body.len()) == body
            &&& line.skip(n + 4 + body.len() + 3) == rest
        }),
{
    reveal_strlit("<!--");
    reveal_strlit("-->");
    let open = "<!--"@;
    let close = "-->"@;
    let line = front + open + body + close + rest;
    let n = front.len() as int;
    let m = n + 4 + body.len();
    let a = front + open;
    let b = body + close;
    text::find_from_is_first(a, open, 0);
    text::find_from_is_first(b, close, 0);
    text::find_from_is_first(line, open, 0);
    text::find_from_is_first(line, close, n + 4);
    assert(line.subrange(n, n + 4) =~= open);
    assert(text::occurs_at(line, open, n));
    assert forall|j: int| 0 <= j < n implies !#[trigger] text::occurs_at(line, open, j) by {
        if text::occurs_at(line, open, j) {
            assert(a.subrange(j, j + 4) =~= line.subrange(j, j + 4));
            assert(text::occurs_at(a, open, j));
        }
    }
    assert(line.subrange(m, m + 3) =~= close);
    assert(text::occurs_at(line, close, m));
    assert forall|j: int| n + 4 <= j < m implies !#[trigger] text::occurs_at(line, close, j) by {
        if text::occurs_at(line, close, j) {
            assert(b.subrange(j - n - 4, j - n - 1) =~= line.subrange(j, j + 3));
            assert(text::occurs_at(b, close, j - n - 4));
        }
    }
    let i = text::find(line, open)->0;
    if i < n {
        assert(!text::occurs_at(line, open, i));
    }
    let k = text::find_from(line, close, n + 4)->0;
    if k < m {
        assert(!text::occurs_at(line, close, k));
    }
    assert(line.subrange(n + 4, m) =~= body);
    assert(line.skip(m + 3) =~= rest);
}

/// Annotating adds to each section and task what the directives on its own line
/// say, and keeps everything else as it is and where it is.
pub proof fn annotations_come_from_the_line(s: SectionView)
    ensures
        ({
            let a = annotated(s);
            &&& a.annotations == section_annotations(line_directives(s.source_line))
            &&& a.items.len() == s.items.len()
            &&& forall|k: int|
                0 <= k < s.items.len() ==> (#[trigger] a.items[k]).task == s.items[k]
                    && a.items[k].needs == task_needs(line_directives(s.items[k].source_line))
            &&& a.section.id == s.id
            &&& a.section.title == s.title
            &&& a.section.level == s.level
            &&& a.section.parent == s.parent
            &&& a.section.line == s.line
            &&& a.section.source_line == s.source_line
        }),
{
}

/// The directives of a line are those of its comments, one after the other.
pub proof fn comments_add_up(a: Seq<Seq<char>>, b: Seq<Seq<char>>, one: Seq<char>)
    ensures
        all_directives(a + b) == all_directives(a) + all_directives(b),
        all_directives(seq![one]) == directives(one),
    decreases b.len(),
{
    let all = a + b;
    assert(seq![one].drop_last() =~= Seq::<Seq<char>>::empty());
    reveal_with_fuel(all_directives, 2);
    assert(Seq::<(Seq<char>, Seq<char>)>::empty() + directives(one) =~= directives(one));
    if b.len() == 0 {
        assert(all =~= a);
        assert(all_directives(a) + all_directives(b) =~= all_directives(a));
    } else {
        comments_add_up(a, b.drop_last(), one);
        assert(all.drop_last() =~= a + b.drop_last());
        assert(all_directives(all) =~= all_directives(a) + all_directives(b));
    }
}

} // verus!
