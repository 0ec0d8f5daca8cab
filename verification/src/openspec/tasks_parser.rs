//! Parse an OpenSpec `tasks.md` file into a structured [`TaskGraph`].
//!
//! The grammar is intentionally narrow:
//!
//! ```markdown
//! ## 1. Section title              <-- top-level section, id = "1"
//! - [ ] 1.1 First task              <-- task item, id = "1.1"
//! - [x] 1.2 Done task               <-- checked task
//!
//! ### 1.3 Sub-section               <-- sub-section, id = "1.3", parent = "1"
//! - [ ] 1.3.1 Nested task           <-- nested item
//! ```
//!
//! Lines inside fenced code blocks (backticks or tildes) are ignored, so that
//! task-like lines in code samples do not become items. Annotations
//! (`<!-- clhorde: ... -->`) are read from the verbatim source lines by the
//! sibling module [`super::annotations`].

use vstd::prelude::*;
use vstd::string::*;

use crate::text;

verus! {

/// Parsed tree of an OpenSpec `tasks.md`.
#[derive(Debug, Clone, PartialEq)]
pub struct TaskGraph {
    pub sections: Vec<Section>,
}

/// One `## N.` or `### N.M` heading and its task items.
#[derive(Debug, PartialEq)]
pub struct Section {
    /// Decimal id parsed from the heading text (e.g. `"1"` or `"2.3"`).
    pub id: String,
    /// Human title with the leading id stripped.
    pub title: String,
    /// Heading nesting level: 2 for `##`, 3 for `###`, and so on.
    pub level: u8,
    /// Parent section id derived from the dotted form.
    pub parent: Option<String>,
    /// Tasks declared directly under this section.
    pub items: Vec<TaskItem>,
    /// 1-based line number of the heading line.
    pub line: usize,
    /// Verbatim heading line.
    pub source_line: String,
}

/// One `- [ ]` or `- [x]` task line.
#[derive(Debug, PartialEq)]
pub struct TaskItem {
    /// Decimal id parsed from the leading text; empty where there is none.
    pub id: String,
    /// Task text with the leading id stripped.
    pub text: String,
    /// Checkbox state.
    pub done: bool,
    /// 1-based `(start, end)` line range, always a single line.
    pub line_range: (usize, usize),
    /// Verbatim source line.
    pub source_line: String,
}

/// What a [`TaskItem`] holds.
pub ghost struct TaskItemView {
    pub id: Seq<char>,
    pub text: Seq<char>,
    pub done: bool,
    pub line_range: (int, int),
    pub source_line: Seq<char>,
}

/// What a [`Section`] holds.
pub ghost struct SectionView {
    pub id: Seq<char>,
    pub title: Seq<char>,
    pub level: int,
    pub parent: Option<Seq<char>>,
    pub items: Seq<TaskItemView>,
    pub line: int,
    pub source_line: Seq<char>,
}

impl View for TaskItem {
    type V = TaskItemView;

    open spec fn view(&self) -> TaskItemView {
        TaskItemView {
            id: self.id@,
            text: self.text@,
            done: self.done,
            line_range: (self.line_range.0 as int, self.line_range.1 as int),
            source_line: self.source_line@,
        }
    }
}

impl View for Section {
    type V = SectionView;

    open spec fn view(&self) -> SectionView {
        SectionView {
            id: self.id@,
            title: self.title@,
            level: self.level as int,
            parent: text::text_option(self.parent),
            items: item_views(self.items@),
            line: self.line as int,
            source_line: self.source_line@,
        }
    }
}

/// What the items of a list hold.
pub open spec fn item_views(items: Seq<TaskItem>) -> Seq<TaskItemView> {
    items.map_values(|t: TaskItem| t@)
}

/// What the sections of a list hold.
pub open spec fn section_views(sections: Seq<Section>) -> Seq<SectionView> {
    sections.map_values(|s: Section| s@)
}

impl Default for TaskGraph {
    fn default() -> (r: Self)
        ensures
            r.sections@.len() == 0,
    {
        TaskGraph { sections: Vec::new() }
    }
}

impl Clone for TaskItem {
    fn clone(&self) -> (r: Self)
        ensures
            r@ == self@,
    {
        TaskItem {
            id: self.id.clone(),
            text: self.text.clone(),
            done: self.done,
            line_range: self.line_range,
            source_line: self.source_line.clone(),
        }
    }
}

impl Clone for Section {
    fn clone(&self) -> (r: Self)
        ensures
            r@ == self@,
    {
        let items: Vec<TaskItem> = self.items.clone();
        proof {
            assert(item_views(items@) =~= item_views(self.items@));
        }
        Section {
            id: self.id.clone(),
            title: self.title.clone(),
            level: self.level,
            parent: self.parent.clone(),
            items,
            line: self.line,
            source_line: self.source_line.clone(),
        }
    }
}

// ---------------------------------------------------------------------
// The grammar
// ---------------------------------------------------------------------

/// A line that opens or closes a code block.
pub open spec fn fence(line: Seq<char>) -> bool {
    let t = text::trimmed_start(line);
    text::begins(t, "```"@) || text::begins(t, "~~~"@)
}

/// A character that a dotted decimal id is made of.
pub open spec fn id_char(c: char) -> bool {
    text::digit(c) || c == '.'
}

/// `s` without the dots it ends with.
pub open spec fn without_end_dots(s: Seq<char>) -> Seq<char>
    decreases s.len(),
{
    if s.len() > 0 && s.last() == '.' {
        without_end_dots(s.drop_last())
    } else {
        s
    }
}

/// The dotted decimal id that `s` begins with, and what follows it. There is
/// one where `s` begins with a digit, the digits and dots it begins with hold
/// no two dots in a row (but for those they end with, which are dropped), and
/// white space or nothing follows them.
pub open spec fn leading_id(s: Seq<char>) -> Option<(Seq<char>, Seq<char>)> {
    let end = text::span(s, |c: char| id_char(c));
    let id = without_end_dots(s.take(end));
    let after = s.skip(end);
    if s.len() == 0 || !text::digit(s[0]) {
        None
    } else if text::find(id, ".."@) is Some {
        None
    } else if after.len() > 0 && !text::white(after[0]) {
        None
    } else {
        Some((id, after))
    }
}

/// The id up to its last dot.
pub open spec fn parent_of(id: Seq<char>) -> Option<Seq<char>>
    decreases id.len(),
{
    if id.len() == 0 {
        None
    } else if id.last() == '.' {
        Some(id.drop_last())
    } else {
        parent_of(id.drop_last())
    }
}

/// `s` without its `<!-- ... -->` comments. A comment that is not closed stays,
/// and so does all that follows it.
pub open spec fn without_comments(s: Seq<char>) -> Seq<char>
    decreases s.len(),
    via without_comments_decreases
{
    match text::find(s, "<!--"@) {
        None => s,
        Some(open) => {
            match text::find_from(s, "-->"@, open + 4) {
                None => s,
                Some(close) => s.take(open) + without_comments(s.skip(close + 3)),
            }
        },
    }
}

#[via_fn]
proof fn without_comments_decreases(s: Seq<char>) {
    reveal_strlit("<!--");
    reveal_strlit("-->");
    text::find_from_is_first(s, "<!--"@, 0);
    match text::find(s, "<!--"@) {
        None => {},
        Some(open) => {
            text::find_from_is_first(s, "-->"@, open + 4);
        },
    }
}

/// The section that a heading line opens.
pub open spec fn heading(line: Seq<char>, line_no: int) -> Option<SectionView> {
    let t = text::trimmed_start(line);
    let level = text::span(t, |c: char| c == '#');
    let after = t.skip(level);
    if !(2 <= level <= 6) || after.len() == 0 || after[0] != ' ' {
        None
    } else {
        match leading_id(text::trimmed_start(after)) {
            None => None,
            Some((id, rest)) => Some(
                SectionView {
                    id,
                    title: text::trimmed(without_comments(rest)),
                    level,
                    parent: parent_of(id),
                    items: Seq::empty(),
                    line: line_no,
                    source_line: line,
                },
            ),
        }
    }
}

/// Whether a checkbox is ticked, and what follows it.
pub open spec fn checkbox(s: Seq<char>) -> Option<(bool, Seq<char>)> {
    if s.len() < 3 || s[0] != '[' || s[2] != ']' {
        None
    } else if s[1] == ' ' {
        Some((false, s.skip(3)))
    } else if s[1] == 'x' || s[1] == 'X' {
        Some((true, s.skip(3)))
    } else {
        None
    }
}

/// The task that a task line states.
pub open spec fn task(line: Seq<char>, line_no: int) -> Option<TaskItemView> {
    let t = text::trimmed_start(line);
    if t.len() < 2 || t[1] != ' ' || !(t[0] == '-' || t[0] == '*' || t[0] == '+') {
        None
    } else {
        match checkbox(t.skip(2)) {
            None => None,
            Some((done, after)) => {
                let body = text::trimmed_start(after);
                let (id, rest) = match leading_id(body) {
                    Some(p) => p,
                    None => (Seq::empty(), body),
                };
                Some(
                    TaskItemView {
                        id,
                        text: text::trimmed(without_comments(rest)),
                        done,
                        line_range: (line_no, line_no),
                        source_line: line,
                    },
                )
            },
        }
    }
}

/// The sections that the lines so far have opened, and whether they end inside
/// a code block.
pub open spec fn parsed(lines: Seq<Seq<char>>) -> (Seq<SectionView>, bool)
    decreases lines.len(),
{
    if lines.len() == 0 {
        (Seq::empty(), false)
    } else {
        let (sections, in_code) = parsed(lines.drop_last());
        let line = lines.last();
        let line_no = lines.len() as int;
        if fence(line) {
            (sections, !in_code)
        } else if in_code {
            (sections, in_code)
        } else if heading(line, line_no) is Some {
            (sections.push(heading(line, line_no)->0), in_code)
        } else if task(line, line_no) is Some && sections.len() > 0 {
            let last = sections.last();
            let grown = SectionView { items: last.items.push(task(line, line_no)->0), ..last };
            (sections.update(sections.len() - 1, grown), in_code)
        } else {
            (sections, in_code)
        }
    }
}

// ---------------------------------------------------------------------
// The parser
// ---------------------------------------------------------------------

/// Whether a line opens or closes a code block.
fn is_code_fence(line: &str) -> (r: bool)
    ensures
        r == fence(line@),
{
    let t: &str = text::trim_start(line);
    text::starts_with(t, "```") || text::starts_with(t, "~~~")
}

/// Split a leading dotted decimal id (e.g. `"1.2.3"`) from the rest of a
/// string. Dots behind the id are consumed.
pub fn split_leading_id(s: &str) -> (r: Option<(String, &str)>)
    ensures
        match leading_id(s@) {
            None => r is None,
            Some((id, after)) => r matches Some((i, a)) && i@ == id && a@ == after,
        },
{
    let cs: Vec<char> = text::chars_of(s);
    if cs.len() == 0 || !text::is_digit(cs[0]) {
        return None;
    }
    let mut end: usize = 0;
    while end < cs.len() && (text::is_digit(cs[end]) || cs[end] == '.')
        invariant
            cs@ == s@,
            end <= cs.len(),
            forall|k: int| 0 <= k < end ==> id_char(#[trigger] cs@[k]),
        decreases cs.len() - end,
    {
        end = end + 1;
    }
    proof {
        text::span_is(s@, |c: char| id_char(c), end as int);
    }
    let mut id_end: usize = end;
    while id_end > 0 && cs[id_end - 1] == '.'
        invariant
            cs@ == s@,
            id_end <= end <= cs.len(),
            without_end_dots(s@.take(end as int)) == without_end_dots(s@.take(id_end as int)),
        decreases id_end,
    {
        proof {
            assert(s@.take(id_end as int).drop_last() =~= s@.take(id_end - 1));
        }
        id_end = id_end - 1;
    }
    proof {
        if id_end > 0 {
            assert(s@.take(id_end as int).last() == cs@[id_end - 1]);
        }
        assert(s@.subrange(0, id_end as int) =~= s@.take(id_end as int));
        assert(s@.subrange(end as int, s@.len() as int) =~= s@.skip(end as int));
    }
    let id: String = text::string_of(&cs, 0, id_end);
    if text::find_chars(&text::chars_of(id.as_str()), "..", 0).is_some() {
        return None;
    }
    if end < cs.len() && !text::is_white(cs[end]) {
        return None;
    }
    Some((id, s.substring_char(end, cs.len())))
}

/// The id of the section that a dotted id lies in.
fn parent_id(id: &str) -> (r: Option<String>)
    ensures
        text::text_option(r) == parent_of(id@),
{
    let cs: Vec<char> = text::chars_of(id);
    let mut i: usize = cs.len();
    proof {
        assert(id@.take(i as int) =~= id@);
    }
    while i > 0
        invariant
            cs@ == id@,
            i <= cs.len(),
            parent_of(id@) == parent_of(id@.take(i as int)),
        decreases i,
    {
        proof {
            assert(id@.take(i as int).drop_last() =~= id@.take(i - 1));
            assert(id@.subrange(0, i - 1) =~= id@.take(i - 1));
        }
        if cs[i - 1] == '.' {
            return Some(text::string_of(&cs, 0, i - 1));
        }
        i = i - 1;
    }
    None
}

/// `s` without its comments.
fn strip_html_comments(s: &str) -> (r: String)
    ensures
        r@ == without_comments(s@),
{
    let cs: Vec<char> = text::chars_of(s);
    let mut out: String = String::new();
    let mut from: usize = 0;
    proof {
        reveal_strlit("<!--");
        reveal_strlit("-->");
        assert(s@.skip(0) =~= s@);
        assert(out@ + without_comments(s@.skip(0)) =~= without_comments(s@));
    }
    loop
        invariant
            cs@ == s@,
            from <= cs.len(),
            "<!--"@.len() == 4,
            "-->"@.len() == 3,
            out@ + without_comments(s@.skip(from as int)) == without_comments(s@),
        decreases cs.len() - from,
    {
        let rest: Vec<char> = text::chars_of(s.substring_char(from, cs.len()));
        proof {
            assert(rest@ =~= s@.skip(from as int));
        }
        match text::find_chars(&rest, "<!--", 0) {
            None => {
                out.append(s.substring_char(from, cs.len()));
                return out;
            },
            Some(open) => match text::find_chars(&rest, "-->", open + 4) {
                None => {
                    out.append(s.substring_char(from, cs.len()));
                    return out;
                },
                Some(close) => {
                    out.append(s.substring_char(from, from + open));
                    proof {
                        assert(s@.subrange(from as int, from + open) =~= rest@.take(open as int));
                        assert(rest@.skip(close + 3) =~= s@.skip(from + close + 3));
                        let tail = without_comments(rest@.skip(close + 3));
                        assert(without_comments(rest@) == rest@.take(open as int) + tail);
                        assert(out@ + tail =~= without_comments(s@));
                    }
                    from = from + close + 3;
                },
            },
        }
    }
}

/// Recognize `## 1. Title` / `### 2.3 Title`.
fn parse_heading(line: &str, line_no: usize) -> (r: Option<Section>)
    ensures
        match heading(line@, line_no as int) {
            None => r is None,
            Some(s) => r is Some && r->0@ == s,
        },
{
    let t: &str = text::trim_start(line);
    let cs: Vec<char> = text::chars_of(t);
    let mut level: usize = 0;
    while level < cs.len() && cs[level] == '#'
        invariant
            cs@ == t@,
            level <= cs.len(),
            forall|k: int| 0 <= k < level ==> cs@[k] == '#',
        decreases cs.len() - level,
    {
        level = level + 1;
    }
    proof {
        text::span_is(t@, |c: char| c == '#', level as int);
    }
    if level < 2 || level > 6 {
        return None;
    }
    if level >= cs.len() || cs[level] != ' ' {
        return None;
    }
    let after: &str = t.substring_char(level, cs.len());
    proof {
        assert(after@ =~= t@.skip(level as int));
    }
    match split_leading_id(text::trim_start(after)) {
        None => None,
        Some((id, rest)) => {
            let parent: Option<String> = parent_id(id.as_str());
            let bare: String = strip_html_comments(rest);
            let title: String = text::owned(text::trim(bare.as_str()));
            let items: Vec<TaskItem> = Vec::new();
            proof {
                assert(item_views(items@) =~= Seq::<TaskItemView>::empty());
            }
            Some(
                Section {
                    id,
                    title,
                    level: level as u8,
                    parent,
                    items,
                    line: line_no,
                    source_line: text::owned(line),
                },
            )
        },
    }
}

/// Strip a `[ ]`/`[x]`/`[X]` checkbox prefix. Returns `(done, rest)`.
fn parse_checkbox(s: &str) -> (r: Option<(bool, &str)>)
    ensures
        match checkbox(s@) {
            None => r is None,
            Some((done, after)) => r matches Some((d, a)) && d == done && a@ == after,
        },
{
    let cs: Vec<char> = text::chars_of(s);
    if cs.len() < 3 || cs[0] != '[' || cs[2] != ']' {
        return None;
    }
    let done: bool = if cs[1] == ' ' {
        false
    } else if cs[1] == 'x' || cs[1] == 'X' {
        true
    } else {
        return None;
    };
    proof {
        assert(s@.subrange(3, s@.len() as int) =~= s@.skip(3));
    }
    Some((done, s.substring_char(3, cs.len())))
}

/// Recognize `- [ ] 1.2 Description` / `* [x] 1.2 Description`.
fn parse_task(line: &str, line_no: usize) -> (r: Option<TaskItem>)
    ensures
        match task(line@, line_no as int) {
            None => r is None,
            Some(t) => r is Some && r->0@ == t,
        },
{
    let t: &str = text::trim_start(line);
    let cs: Vec<char> = text::chars_of(t);
    if cs.len() < 2 || cs[1] != ' ' || !(cs[0] == '-' || cs[0] == '*' || cs[0] == '+') {
        return None;
    }
    let after_marker: &str = t.substring_char(2, cs.len());
    proof {
        assert(after_marker@ =~= t@.skip(2));
    }
    match parse_checkbox(after_marker) {
        None => None,
        Some((done, after_box)) => {
            let body: &str = text::trim_start(after_box);
            let (id, rest): (String, &str) = match split_leading_id(body) {
                Some((i, r)) => (i, r),
                None => (String::new(), body),
            };
            let bare: String = strip_html_comments(rest);
            let words: String = text::owned(text::trim(bare.as_str()));
            Some(
                TaskItem {
                    id,
                    text: words,
                    done,
                    line_range: (line_no, line_no),
                    source_line: text::owned(line),
                },
            )
        },
    }
}

/// Parse a tasks.md document. Never fails: malformed lines are dropped, and so
/// are tasks before the first heading.
pub fn parse(input: &str) -> (r: TaskGraph)
    ensures
        section_views(r.sections@) == parsed(text::lines_of(input@)).0,
{
    let ls: Vec<&str> = text::lines(input);
    let ghost all = text::lines_of(input@);
    let mut sections: Vec<Section> = Vec::new();
    let mut in_code_fence: bool = false;
    let mut i: usize = 0;
    proof {
        assert(all.take(0) =~= Seq::<Seq<char>>::empty());
        assert(section_views(sections@) =~= Seq::<SectionView>::empty());
    }
    while i < ls.len()
        invariant
            all == text::lines_of(input@),
            ls@.len() == all.len(),
            forall|k: int| 0 <= k < ls@.len() ==> (#[trigger] ls@[k])@ == all[k],
            i <= ls.len(),
            (section_views(sections@), in_code_fence) == parsed(all.take(i as int)),
        decreases ls.len() - i,
    {
        let line: &str = ls[i];
        let line_no: usize = i + 1;
        let ghost before = section_views(sections@);
        proof {
            assert(all.take(i + 1).drop_last() =~= all.take(i as int));
            assert(all.take(i + 1).last() == line@);
        }
        i = i + 1;
        if is_code_fence(line) {
            in_code_fence = !in_code_fence;
        } else if !in_code_fence {
            match parse_heading(line, line_no) {
                Some(section) => {
                    let ghost added = section@;
                    sections.push(section);
                    proof {
                        assert(section_views(sections@) =~= before.push(added));
                    }
                },
                None => {
                    match parse_task(line, line_no) {
                        None => {},
                        Some(item) => {
                            if sections.len() > 0 {
                                let ghost added = item@;
                                let mut last: Section = sections.pop().unwrap();
                                let ghost last_items = last.items@;
                                last.items.push(item);
                                proof {
                                    assert(item_views(last.items@) =~= item_views(
                                        last_items,
                                    ).push(added));
                                }
                                sections.push(last);
                                proof {
                                    let grown = SectionView {
                                        items: before.last().items.push(added),
                                        ..before.last()
                                    };
                                    assert(section_views(sections@) =~= before.update(
                                        before.len() - 1,
                                        grown,
                                    ));
                                }
                            }
                        },
                    }
                },
            }
        }
    }
    proof {
        assert(all.take(all.len() as int) =~= all);
    }
    TaskGraph { sections }
}

// ---------------------------------------------------------------------
// Lines
// ---------------------------------------------------------------------

/// A task stands on one line, and holds that line word for word.
pub open spec fn stands_on(t: TaskItemView, lines: Seq<Seq<char>>) -> bool {
    &&& 1 <= t.line_range.0 <= lines.len()
    &&& t.line_range.1 == t.line_range.0
    &&& t.source_line == lines[t.line_range.0 - 1]
}

/// A section's heading and tasks stand on lines of the list, the tasks below
/// the heading and in order.
pub open spec fn section_placed(s: SectionView, lines: Seq<Seq<char>>) -> bool {
    &&& 1 <= s.line <= lines.len()
    &&& s.source_line == lines[s.line - 1]
    &&& forall|k: int|
        0 <= k < s.items.len() ==> stands_on(#[trigger] s.items[k], lines) && s.line
            < s.items[k].line_range.0
    &&& forall|j: int, k: int|
        0 <= j < k < s.items.len() ==> (#[trigger] s.items[j]).line_range.0 < (
        #[trigger] s.items[k]).line_range.0
}

/// Every section and task that is read off a list stands on the line that it
/// names, and sections come in the order of their lines.
pub proof fn parsed_lines_are_there(lines: Seq<Seq<char>>)
    ensures
        forall|i: int|
            0 <= i < parsed(lines).0.len() ==> section_placed(#[trigger] parsed(lines).0[i], lines),
        forall|i: int, j: int|
            0 <= i < j < parsed(lines).0.len() ==> (#[trigger] parsed(lines).0[i]).line < (
            #[trigger] parsed(lines).0[j]).line,
    decreases lines.len(),
{
    if lines.len() > 0 {
        let front = lines.drop_last();
        let before = parsed(front).0;
        let after = parsed(lines).0;
        parsed_lines_are_there(front);
        assert forall|i: int| 0 <= i < after.len() implies section_placed(
            #[trigger] after[i],
            lines,
        ) by {
            if i < before.len() {
                assert(section_placed(before[i], front));
                let b = before[i];
                let a = after[i];
                assert forall|k: int| 0 <= k < a.items.len() implies stands_on(
                    #[trigger] a.items[k],
                    lines,
                ) && a.line < a.items[k].line_range.0 by {
                    if k < b.items.len() {
                        assert(stands_on(b.items[k], front));
                    }
                }
                assert forall|j: int, k: int|
                    0 <= j < k < a.items.len() implies (#[trigger] a.items[j]).line_range.0 < (
                #[trigger] a.items[k]).line_range.0 by {
                    assert(stands_on(b.items[j], front));
                    if k < b.items.len() {
                        assert(b.items[j].line_range.0 < b.items[k].line_range.0);
                    }
                }
            }
        }
        assert forall|i: int, j: int| 0 <= i < j < after.len() implies (#[trigger] after[i]).line < (
        #[trigger] after[j]).line by {
            assert(section_placed(before[i], front));
            if j < before.len() {
                assert(before[i].line < before[j].line);
            }
        }
    }
}

// ---------------------------------------------------------------------
// What stands before the first heading
// ---------------------------------------------------------------------

/// A task `k` lines further down.
pub open spec fn lowered_item(t: TaskItemView, k: int) -> TaskItemView {
    TaskItemView { line_range: (t.line_range.0 + k, t.line_range.1 + k), ..t }
}

/// A section and its tasks `k` lines further down.
pub open spec fn lowered(s: SectionView, k: int) -> SectionView {
    SectionView {
        items: s.items.map_values(|t: TaskItemView| lowered_item(t, k)),
        line: s.line + k,
        ..s
    }
}

/// Sections `k` lines further down.
pub open spec fn all_lowered(sections: Seq<SectionView>, k: int) -> Seq<SectionView> {
    sections.map_values(|s: SectionView| lowered(s, k))
}

/// A line that is neither a heading nor the edge of a code block.
pub open spec fn is_prose(line: Seq<char>) -> bool {
    !fence(line) && heading(line, 0) is None
}

/// Whole lines in front of a document, none of them a heading or the edge of a
/// code block, are dropped, tasks among them too: the sections are those of the
/// document, as many lines further down.
pub proof fn text_in_front_is_dropped(front: Seq<char>, input: Seq<char>)
    requires
        front.len() == 0 || front.last() == '\n',
        forall|i: int|
            0 <= i < text::lines_of(front).len() ==> is_prose(#[trigger] text::lines_of(front)[i]),
    ensures
        parsed(text::lines_of(front + input)).0 == all_lowered(
            parsed(text::lines_of(input)).0,
            text::lines_of(front).len() as int,
        ),
{
    text::lines_of_more(front, input);
    lines_in_front_are_dropped(text::lines_of(front), text::lines_of(input));
}

/// Lines in front of others that are neither headings nor edges of code blocks
/// only move the sections down.
proof fn lines_in_front_are_dropped(front: Seq<Seq<char>>, lines: Seq<Seq<char>>)
    requires
        forall|i: int| 0 <= i < front.len() ==> is_prose(#[trigger] front[i]),
    ensures
        parsed(front + lines).0 == all_lowered(parsed(lines).0, front.len() as int),
        parsed(front + lines).1 == parsed(lines).1,
    decreases front.len() + lines.len(),
{
    let all = front + lines;
    let k = front.len() as int;
    if lines.len() > 0 {
        lines_in_front_are_dropped(front, lines.drop_last());
        assert(all.drop_last() =~= front + lines.drop_last());
        assert(all.last() == lines.last());
        let line = lines.last();
        let (before, in_code) = parsed(lines.drop_last());
        let after = parsed(lines).0;
        if !fence(line) && !in_code {
            let n = lines.len() as int;
            match heading(line, n) {
                Some(s) => {
                    assert(lowered(s, k).items =~= Seq::<TaskItemView>::empty());
                    assert(heading(line, n + k) == Some(lowered(s, k)));
                    assert(all_lowered(after, k) =~= all_lowered(before, k).push(lowered(s, k)));
                },
                None => {
                    if task(line, n) is Some && before.len() > 0 {
                        let t = task(line, n)->0;
                        let last = before.last();
                        assert(task(line, n + k) == Some(lowered_item(t, k)));
                        assert(lowered(after.last(), k).items =~= lowered(last, k).items.push(
                            lowered_item(t, k),
                        ));
                        assert(all_lowered(after, k) =~= parsed(all).0);
                    }
                },
            }
        }
    } else if front.len() > 0 {
        assert(all =~= front);
        assert(front.drop_last() + lines =~= front.drop_last());
        assert forall|i: int| 0 <= i < front.drop_last().len() implies is_prose(
            #[trigger] front.drop_last()[i],
        ) by {
            assert(is_prose(front[i]));
        }
        lines_in_front_are_dropped(front.drop_last(), lines);
        assert(is_prose(front[front.len() - 1]));
        assert(parsed(lines).0 =~= Seq::<SectionView>::empty());
        assert(parsed(all).0 =~= all_lowered(parsed(lines).0, k));
    } else {
        assert(all =~= Seq::<Seq<char>>::empty());
        assert(parsed(all).0 =~= all_lowered(parsed(lines).0, k));
    }
}

// ---------------------------------------------------------------------
// Lines that are read back
// ---------------------------------------------------------------------

/// All of these characters are white space.
pub open spec fn blank(s: Seq<char>) -> bool {
    forall|k: int| 0 <= k < s.len() ==> text::white(#[trigger] s[k])
}

/// A dotted decimal id: digits and dots, no two dots in a row, and a digit at
/// each end.
pub open spec fn well_formed_id(id: Seq<char>) -> bool {
    &&& id.len() > 0
    &&& text::digit(id[0])
    &&& id.last() != '.'
    &&& forall|k: int| 0 <= k < id.len() ==> text::digit(#[trigger] id[k]) || id[k] == '.'
    &&& forall|k: int| 0 <= k < id.len() - 1 ==> !((#[trigger] id[k]) == '.' && id[k + 1] == '.')
}

/// Words without white space at their ends and without a comment.
pub open spec fn plain_words(s: Seq<char>) -> bool {
    &&& s.len() > 0
    &&& !text::white(s[0])
    &&& !text::white(s.last())
    &&& text::find(s, "<!--"@) is None
}

/// The id that something begins with is read back, with dots behind it dropped,
/// where nothing or white space follows.
proof fn id_is_read_back(id: Seq<char>, dots: Seq<char>, rest: Seq<char>)
    requires
        well_formed_id(id),
        forall|k: int| 0 <= k < dots.len() ==> (#[trigger] dots[k]) == '.',
        rest.len() > 0 ==> text::white(rest[0]),
    ensures
        leading_id(id + dots + rest) == Some((id, rest)),
{
    let s = id + dots + rest;
    let f = |c: char| id_char(c);
    let n = (id.len() + dots.len()) as int;
    assert forall|k: int| 0 <= k < n implies f(s[k]) by {
        if k >= id.len() {
            assert(s[k] == dots[k - id.len()]);
        } else {
            assert(s[k] == id[k]);
        }
    }
    if n < s.len() {
        assert(s[n] == rest[0]);
        assert(!text::digit(s[n]) && s[n] != '.');
    }
    text::span_is(s, f, n);
    assert(s.take(n) =~= id + dots);
    dots_are_dropped(id, dots);
    assert(s.skip(n) =~= rest);
    assert(s[0] == id[0]);
    reveal_strlit("..");
    text::find_from_is_first(id, ".."@, 0);
    if text::find(id, ".."@) is Some {
        let i = text::find(id, ".."@)->0;
        assert(id.subrange(i, i + 2)[0] == ".."@[0]);
        assert(id.subrange(i, i + 2)[1] == ".."@[1]);
        assert(id[i] == '.' && id[i + 1] == '.');
    }
}

/// Dots at the end are dropped, and nothing else.
proof fn dots_are_dropped(id: Seq<char>, dots: Seq<char>)
    requires
        id.len() > 0,
        id.last() != '.',
        forall|k: int| 0 <= k < dots.len() ==> (#[trigger] dots[k]) == '.',
    ensures
        without_end_dots(id + dots) == id,
    decreases dots.len(),
{
    let s = id + dots;
    if dots.len() == 0 {
        assert(s =~= id);
    } else {
        assert(s.last() == dots[dots.len() - 1]);
        assert(s.drop_last() =~= id + dots.drop_last());
        dots_are_dropped(id, dots.drop_last());
    }
}

/// Words without a comment and with white space around them are read as they
/// are.
proof fn words_are_read_back(before: Seq<char>, words: Seq<char>, after: Seq<char>)
    requires
        blank(before),
        plain_words(words),
        blank(after),
    ensures
        text::trimmed(without_comments(before + words + after)) == words,
{
    let s = before + words + after;
    reveal_strlit("<!--");
    text::find_from_is_first(s, "<!--"@, 0);
    text::find_from_is_first(words, "<!--"@, 0);
    if text::find(s, "<!--"@) is Some {
        let i = text::find(s, "<!--"@)->0;
        let found = s.subrange(i, i + 4);
        let open = "<!--"@;
        assert(found[0] == open[0] && found[1] == open[1] && found[2] == open[2] && found[3]
            == open[3]);
        assert(open[0] == '<' && open[1] == '!' && open[2] == '-' && open[3] == '-');
        assert(s[i] == '<' && s[i + 3] == '-');
        let n = before.len() as int;
        let m = n + words.len();
        assert(i >= n) by {
            if i < n {
                assert(s[i] == before[i]);
            }
        }
        assert(i + 3 < m) by {
            if i + 3 >= m {
                assert(s[i + 3] == after[i + 3 - m]);
            }
        }
        assert(words.subrange(i - n, i - n + 4) =~= found);
        assert(text::occurs_at(words, open, i - n));
    }
    text::trimming_gives_back(before, words, after);
}

/// A task line is read back: any bullet, a ticked or an empty box, the id and
/// the words, however far it is indented. It is neither a heading nor the edge
/// of a code block.
pub proof fn task_line_is_read_back(
    indent: Seq<char>,
    bullet: char,
    mark: char,
    id: Seq<char>,
    words: Seq<char>,
    line_no: int,
)
    requires
        blank(indent),
        bullet == '-' || bullet == '*' || bullet == '+',
        mark == ' ' || mark == 'x' || mark == 'X',
        well_formed_id(id),
        plain_words(words),
    ensures
        ({
            let line = indent + seq![bullet, ' ', '[', mark, ']', ' '] + id + seq![' '] + words;
            &&& task(line, line_no) == Some(
                TaskItemView {
                    id,
                    text: words,
                    done: mark == 'x' || mark == 'X',
                    line_range: (line_no, line_no),
                    source_line: line,
                },
            )
            &&& !fence(line)
            &&& heading(line, line_no) is None
        }),
{
    let box_chars = seq![bullet, ' ', '[', mark, ']', ' '];
    let tail = id + seq![' '] + words;
    let line = indent + box_chars + id + seq![' '] + words;
    assert(line =~= indent + (box_chars + tail));
    starts_behind_indent(indent, box_chars + tail);
    let t = box_chars + tail;
    assert(text::trimmed_start(line) == t);
    let boxed = t.skip(2);
    assert(boxed[0] == '[' && boxed[1] == mark && boxed[2] == ']');
    let after = boxed.skip(3);
    assert(after =~= seq![' '] + tail);
    assert(blank(seq![' ']));
    starts_behind_indent(seq![' '], tail);
    assert(text::trimmed_start(after) == tail);
    let rest = seq![' '] + words;
    assert(tail =~= id + Seq::<char>::empty() + rest);
    id_is_read_back(id, Seq::<char>::empty(), rest);
    assert(rest =~= seq![' '] + words + Seq::<char>::empty());
    words_are_read_back(seq![' '], words, Seq::<char>::empty());
    no_heading_or_fence(line, t);
}

/// A task line without an id is read back: its id is empty.
pub proof fn task_line_without_id_is_read_back(
    indent: Seq<char>,
    bullet: char,
    mark: char,
    words: Seq<char>,
    line_no: int,
)
    requires
        blank(indent),
        bullet == '-' || bullet == '*' || bullet == '+',
        mark == ' ' || mark == 'x' || mark == 'X',
        plain_words(words),
        !text::digit(words[0]),
    ensures
        ({
            let line = indent + seq![bullet, ' ', '[', mark, ']', ' '] + words;
            task(line, line_no) == Some(
                TaskItemView {
                    id: Seq::empty(),
                    text: words,
                    done: mark == 'x' || mark == 'X',
                    line_range: (line_no, line_no),
                    source_line: line,
                },
            )
        }),
{
    let box_chars = seq![bullet, ' ', '[', mark, ']', ' '];
    let line = indent + box_chars + words;
    assert(line =~= indent + (box_chars + words));
    starts_behind_indent(indent, box_chars + words);
    let t = box_chars + words;
    let boxed = t.skip(2);
    assert(boxed[0] == '[' && boxed[1] == mark && boxed[2] == ']');
    assert(boxed.skip(3) =~= seq![' '] + words);
    assert(blank(seq![' ']));
    starts_behind_indent(seq![' '], words);
    let none = Seq::<char>::empty();
    assert(words =~= none + words + none);
    words_are_read_back(none, words, none);
}

/// Only lines with a bullet and a box are tasks, and the box says whether they
/// are ticked.
pub proof fn tasks_have_a_box(line: Seq<char>, line_no: int)
    requires
        task(line, line_no) is Some,
    ensures
        ({
            let t = text::trimmed_start(line);
            &&& t.len() >= 5
            &&& t[0] == '-' || t[0] == '*' || t[0] == '+'
            &&& t[1] == ' '
            &&& t[2] == '['
            &&& t[3] == ' ' || t[3] == 'x' || t[3] == 'X'
            &&& t[4] == ']'
            &&& task(line, line_no)->0.done == (t[3] != ' ')
            &&& task(line, line_no)->0.source_line == line
            &&& task(line, line_no)->0.line_range == (line_no, line_no)
        }),
{
    let t = text::trimmed_start(line);
    let boxed = t.skip(2);
    assert(boxed[0] == t[2] && boxed[1] == t[3] && boxed[2] == t[4]);
}

/// Trimming stops at the first character that is no white space.
proof fn starts_behind_indent(indent: Seq<char>, s: Seq<char>)
    requires
        blank(indent),
        s.len() > 0,
        !text::white(s[0]),
    ensures
        text::trimmed_start(indent + s) == s,
{
    let all = indent + s;
    let n = text::trimming_start_drops_white(all);
    if n < indent.len() {
        assert(all[n] == indent[n]);
    }
    if n > indent.len() {
        assert(all[indent.len() as int] == s[0]);
    }
    assert(all.skip(n) =~= s);
}

/// What begins with a bullet is neither a heading nor the edge of a code block.
proof fn no_heading_or_fence(line: Seq<char>, t: Seq<char>)
    requires
        text::trimmed_start(line) == t,
        t.len() > 0,
        t[0] == '-' || t[0] == '*' || t[0] == '+',
    ensures
        !fence(line),
        forall|n: int| #[trigger] heading(line, n) is None,
{
    reveal_strlit("```");
    reveal_strlit("~~~");
    if text::begins(t, "```"@) {
        assert(t.subrange(0, 3)[0] == "```"@[0]);
    }
    if text::begins(t, "~~~"@) {
        assert(t.subrange(0, 3)[0] == "~~~"@[0]);
    }
    text::span_is(t, |c: char| c == '#', 0);
}

/// A heading line is read back: two to six hashes, the id, with or without a
/// dot behind it, and the title. Its parent is the id up to the last dot.
pub proof fn heading_line_is_read_back(
    indent: Seq<char>,
    level: nat,
    id: Seq<char>,
    dots: Seq<char>,
    title: Seq<char>,
    line_no: int,
)
    requires
        blank(indent),
        2 <= level <= 6,
        well_formed_id(id),
        forall|k: int| 0 <= k < dots.len() ==> (#[trigger] dots[k]) == '.',
        plain_words(title),
    ensures
        ({
            let line = indent + Seq::new(level, |k: int| '#') + seq![' '] + id + dots + seq![' ']
                + title;
            &&& heading(line, line_no) matches Some(s) && {
                &&& s.id == id
                &&& s.title == title
                &&& s.level == level
                &&& s.items.len() == 0
                &&& s.line == line_no
                &&& s.source_line == line
                &&& s.parent is None ==> forall|k: int|
                    0 <= k < id.len() ==> (#[trigger] id[k]) != '.'
                &&& s.parent matches Some(p) ==> p.len() < id.len() && id.take(p.len() as int) == p
                    && id[p.len() as int] == '.' && forall|k: int|
                    p.len() < k < id.len() ==> (#[trigger] id[k]) != '.'
            }
            &&& !fence(line)
        }),
{
    let hashes = Seq::new(level, |k: int| '#');
    let body = id + dots + seq![' '] + title;
    let line = indent + hashes + seq![' '] + id + dots + seq![' '] + title;
    let t = hashes + seq![' '] + body;
    assert(line =~= indent + t);
    assert(t[0] == '#');
    starts_behind_indent(indent, t);
    assert forall|k: int| 0 <= k < level implies (|c: char| c == '#')(t[k]) by {}
    assert(t[level as int] == ' ');
    text::span_is(t, |c: char| c == '#', level as int);
    let after = t.skip(level as int);
    assert(after =~= seq![' '] + body);
    assert(body[0] == id[0]);
    assert(blank(seq![' ']));
    starts_behind_indent(seq![' '], body);
    let rest = seq![' '] + title;
    assert(body =~= id + dots + rest);
    id_is_read_back(id, dots, rest);
    assert(rest =~= seq![' '] + title + Seq::<char>::empty());
    words_are_read_back(seq![' '], title, Seq::<char>::empty());
    parent_is_up_to_the_last_dot(id);
    reveal_strlit("```");
    reveal_strlit("~~~");
    if text::begins(t, "```"@) {
        assert(t.subrange(0, 3)[0] == "```"@[0]);
    }
    if text::begins(t, "~~~"@) {
        assert(t.subrange(0, 3)[0] == "~~~"@[0]);
    }
}

/// The parent of an id is the id up to its last dot.
pub proof fn parent_is_up_to_the_last_dot(id: Seq<char>)
    ensures
        parent_of(id) is None ==> forall|k: int| 0 <= k < id.len() ==> (#[trigger] id[k]) != '.',
        parent_of(id) matches Some(p) ==> p.len() < id.len() && id.take(p.len() as int) == p
            && id[p.len() as int] == '.' && forall|k: int|
            p.len() < k < id.len() ==> (#[trigger] id[k]) != '.',
    decreases id.len(),
{
    if id.len() > 0 {
        let t = id.drop_last();
        if id.last() == '.' {
            assert(id.take(t.len() as int) =~= t);
        } else {
            parent_is_up_to_the_last_dot(t);
            match parent_of(t) {
                None => {
                    assert forall|k: int| 0 <= k < id.len() implies (#[trigger] id[k]) != '.' by {
                        if k < t.len() {
                            assert(t[k] == id[k]);
                        }
                    }
                },
                Some(p) => {
                    assert(id.take(p.len() as int) =~= t.take(p.len() as int));
                    assert(t[p.len() as int] == id[p.len() as int]);
                    assert forall|k: int| p.len() < k < id.len() implies (#[trigger] id[k])
                        != '.' by {
                        if k < t.len() {
                            assert(t[k] == id[k]);
                        }
                    }
                },
            }
        }
    }
}

/// Only lines of two to six hashes and a space are headings, and only where an
/// id follows that begins with a digit.
pub proof fn headings_have_hashes_and_an_id(line: Seq<char>, line_no: int)
    requires
        heading(line, line_no) is Some,
    ensures
        ({
            let t = text::trimmed_start(line);
            let s = heading(line, line_no)->0;
            &&& 2 <= s.level <= 6
            &&& s.level < t.len()
            &&& forall|k: int| 0 <= k < s.level ==> (#[trigger] t[k]) == '#'
            &&& t[s.level] == ' '
            &&& s.source_line == line
            &&& s.line == line_no
            &&& s.items.len() == 0
        }),
{
    let t = text::trimmed_start(line);
    let f = |c: char| c == '#';
    let n = text::span(t, f);
    text::span_bound(t, f);
    hashes_span(t, n);
    assert(t.skip(n)[0] == t[n]);
}

/// Every character of a run has what the run is of.
proof fn hashes_span(t: Seq<char>, n: int)
    requires
        n == text::span(t, |c: char| c == '#'),
    ensures
        forall|k: int| 0 <= k < n ==> (#[trigger] t[k]) == '#',
    decreases t.len(),
{
    text::span_bound(t, |c: char| c == '#');
    if t.len() > 0 && t[0] == '#' {
        hashes_span(t.drop_first(), n - 1);
        assert forall|k: int| 0 <= k < n implies (#[trigger] t[k]) == '#' by {
            if k > 0 {
                assert(t.drop_first()[k - 1] == t[k]);
            }
        }
    }
}

/// How many of the lines are edges of code blocks.
pub open spec fn fences(lines: Seq<Seq<char>>) -> nat {
    lines.filter(|l: Seq<char>| fence(l)).len()
}

/// A line inside a code block, behind an odd number of its edges, adds nothing.
/// Outside, a heading opens a section behind all others, and a task belongs to
/// the section that was opened last and to no other; where none was, it is
/// dropped. Any other line adds nothing.
pub proof fn lines_belong_to_the_last_heading(lines: Seq<Seq<char>>, line: Seq<char>)
    ensures
        ({
            let before = parsed(lines).0;
            let after = parsed(lines.push(line)).0;
            let n = lines.len() as int + 1;
            let inside = fences(lines) % 2 == 1;
            &&& inside || fence(line) ==> after == before
            &&& !inside && !fence(line) && heading(line, n) is Some ==> after == before.push(
                heading(line, n)->0,
            )
            &&& !inside && !fence(line) && heading(line, n) is None && task(line, n) is Some
                && before.len() > 0 ==> after.len() == before.len() && after.drop_last()
                == before.drop_last() && after.last() == (SectionView {
                items: before.last().items.push(task(line, n)->0),
                ..before.last()
            })
            &&& !inside && !fence(line) && heading(line, n) is None && (task(line, n) is None
                || before.len() == 0) ==> after == before
        }),
{
    code_is_between_fences(lines);
    let all = lines.push(line);
    assert(all.drop_last() =~= lines);
    let before = parsed(lines).0;
    let after = parsed(all).0;
    if before.len() > 0 && after.len() == before.len() {
        assert(after.drop_last() =~= before.drop_last());
    }
}

/// The lines end inside a code block exactly where an odd number of edges stand
/// among them.
proof fn code_is_between_fences(lines: Seq<Seq<char>>)
    ensures
        parsed(lines).1 == (fences(lines) % 2 == 1),
    decreases lines.len(),
{
    reveal(Seq::filter);
    if lines.len() > 0 {
        code_is_between_fences(lines.drop_last());
    }
}

/// Edges of code blocks begin with three backticks or three tildes, however far
/// they are indented.
pub proof fn fences_begin_code(indent: Seq<char>, rest: Seq<char>)
    requires
        blank(indent),
    ensures
        fence(indent + seq!['`', '`', '`'] + rest),
        fence(indent + seq!['~', '~', '~'] + rest),
{
    reveal_strlit("```");
    reveal_strlit("~~~");
    let a = seq!['`', '`', '`'] + rest;
    let b = seq!['~', '~', '~'] + rest;
    assert(indent + seq!['`', '`', '`'] + rest =~= indent + a);
    assert(indent + seq!['~', '~', '~'] + rest =~= indent + b);
    starts_behind_indent(indent, a);
    starts_behind_indent(indent, b);
    assert(a.subrange(0, 3) =~= "```"@);
    assert(b.subrange(0, 3) =~= "~~~"@);
}

} // verus!
