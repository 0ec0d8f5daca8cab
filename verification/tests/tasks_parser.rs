//! Reading task lists.

use clhorde::openspec::tasks_parser::{parse, split_leading_id};

#[test]
fn parse_minimal_section_with_two_tasks() {
    let input = "\
## 1. Theme Infrastructure
- [ ] 1.1 Create ThemeContext
- [ ] 1.2 Add CSS variables
";
    let g = parse(input);
    assert_eq!(g.sections.len(), 1);
    let s = &g.sections[0];
    assert_eq!(s.id, "1");
    assert_eq!(s.title, "Theme Infrastructure");
    assert_eq!(s.level, 2);
    assert_eq!(s.parent, None);
    assert_eq!(s.line, 1);

    assert_eq!(s.items.len(), 2);
    assert_eq!(s.items[0].id, "1.1");
    assert_eq!(s.items[0].text, "Create ThemeContext");
    assert!(!s.items[0].done);
    assert_eq!(s.items[0].line_range, (2, 2));
    assert_eq!(s.items[1].id, "1.2");
}

#[test]
fn checked_task_is_marked_done() {
    let input = "\
## 1. X
- [x] 1.1 done
- [X] 1.2 also done
- [ ] 1.3 pending
";
    let g = parse(input);
    let items = &g.sections[0].items;
    assert!(items[0].done);
    assert!(items[1].done);
    assert!(!items[2].done);
}

#[test]
fn subsection_records_parent() {
    let input = "\
## 1. Top
### 1.2 Sub
- [ ] 1.2.1 Nested
";
    let g = parse(input);
    assert_eq!(g.sections.len(), 2);
    assert_eq!(g.sections[1].id, "1.2");
    assert_eq!(g.sections[1].parent.as_deref(), Some("1"));
    assert_eq!(g.sections[1].level, 3);
    assert_eq!(g.sections[1].items.len(), 1);
    assert_eq!(g.sections[1].items[0].id, "1.2.1");
    assert_eq!(g.sections[1].items[0].line_range, (3, 3));
}

#[test]
fn dotted_heading_form_works() {
    let input = "\
## 1. Foo
- [ ] 1.1 Bar
";
    let g = parse(input);
    assert_eq!(g.sections[0].id, "1");
    assert_eq!(g.sections[0].title, "Foo");
}

#[test]
fn prose_between_items_is_tolerated() {
    let input = "\
## 1. Section

Some prose explaining the section.

- [ ] 1.1 First

More prose between items.

- [ ] 1.2 Second
";
    let g = parse(input);
    assert_eq!(g.sections.len(), 1);
    assert_eq!(g.sections[0].items.len(), 2);
    assert_eq!(g.sections[0].items[0].line_range.0, 5);
    assert_eq!(g.sections[0].items[1].line_range.0, 9);
}

#[test]
fn fenced_code_blocks_are_skipped() {
    let input = "\
## 1. X
```markdown
- [ ] 9.9 Fake task in code
## 99. Fake heading
```
- [ ] 1.1 Real task
";
    let g = parse(input);
    assert_eq!(g.sections.len(), 1);
    assert_eq!(g.sections[0].id, "1");
    assert_eq!(g.sections[0].items.len(), 1);
    assert_eq!(g.sections[0].items[0].id, "1.1");
    assert_eq!(g.sections[0].items[0].text, "Real task");
}

#[test]
fn tilde_fenced_code_blocks_are_skipped() {
    let input = "\
## 1. X
~~~
- [ ] 9.9 Fake task
~~~
- [ ] 1.1 Real
";
    let g = parse(input);
    assert_eq!(g.sections[0].items.len(), 1);
    assert_eq!(g.sections[0].items[0].id, "1.1");
}

#[test]
fn empty_input_returns_empty_graph() {
    assert!(parse("").sections.is_empty());
    assert!(parse("\n\n   \n").sections.is_empty());
}

#[test]
fn task_before_any_heading_is_dropped() {
    let input = "\
- [ ] 0.0 orphan
## 1. Real
- [ ] 1.1 First
";
    let g = parse(input);
    assert_eq!(g.sections.len(), 1);
    assert_eq!(g.sections[0].items.len(), 1);
}

#[test]
fn task_without_id_is_kept_with_empty_id() {
    let input = "\
## 1. X
- [ ] Free-form task
";
    let g = parse(input);
    let task = &g.sections[0].items[0];
    assert_eq!(task.id, "");
    assert_eq!(task.text, "Free-form task");
}

#[test]
fn heading_without_id_is_dropped() {
    let input = "\
## Just a heading
- [ ] 1.1 stranded
";
    let g = parse(input);
    assert!(g.sections.is_empty());
}

#[test]
fn h1_is_ignored() {
    let input = "\
# tasks.md
## 1. Real
- [ ] 1.1 Real
";
    let g = parse(input);
    assert_eq!(g.sections.len(), 1);
    assert_eq!(g.sections[0].id, "1");
}

#[test]
fn source_line_is_preserved_verbatim_for_annotations_pass() {
    let input = "\
## 1. Foo <!-- clhorde: depends 0 -->
- [ ] 1.1 Bar <!-- clhorde: needs 0.1 -->
";
    let g = parse(input);
    assert!(g.sections[0].source_line.contains("<!-- clhorde:"));
    assert!(g.sections[0].items[0].source_line.contains("<!-- clhorde:"));
}

#[test]
fn star_and_plus_list_markers_work() {
    let input = "\
## 1. X
* [ ] 1.1 star
+ [ ] 1.2 plus
- [ ] 1.3 dash
";
    let g = parse(input);
    assert_eq!(g.sections[0].items.len(), 3);
    assert_eq!(g.sections[0].items[0].id, "1.1");
    assert_eq!(g.sections[0].items[1].id, "1.2");
    assert_eq!(g.sections[0].items[2].id, "1.3");
}

#[test]
fn split_leading_id_simple() {
    assert_eq!(
        split_leading_id("1 rest"),
        Some(("1".to_string(), " rest"))
    );
}

#[test]
fn split_leading_id_dotted() {
    assert_eq!(
        split_leading_id("1.2.3 rest"),
        Some(("1.2.3".to_string(), " rest"))
    );
}

#[test]
fn split_leading_id_trailing_dot_consumed() {
    assert_eq!(
        split_leading_id("1. rest"),
        Some(("1".to_string(), " rest"))
    );
}

#[test]
fn split_leading_id_rejects_word_with_leading_digit() {
    assert!(split_leading_id("1stThing").is_none());
}

#[test]
fn split_leading_id_rejects_non_digit() {
    assert!(split_leading_id("foo").is_none());
    assert!(split_leading_id(".").is_none());
}

#[test]
fn text_before_the_first_heading_only_moves_the_sections_down() {
    let input = "## 1. A\n- [ ] 1.1 a\n```\n## 9. Code\n```\n- [x] b\n### 1.2 B\n- [ ] 1.2.1 c\n";
    let front = "# Title\n\n- [ ] 0.1 dropped\n## no number\r\n";
    let plain = parse(input);
    let moved = parse(&format!("{front}{input}"));
    assert_eq!(plain.sections.len(), 2);
    assert_eq!(moved.sections.len(), plain.sections.len());
    for (a, b) in plain.sections.iter().zip(&moved.sections) {
        assert_eq!((&a.id, &a.title, a.line + 4), (&b.id, &b.title, b.line));
        assert_eq!(a.items.len(), b.items.len());
        for (t, u) in a.items.iter().zip(&b.items) {
            assert_eq!((&t.id, &t.text, t.done), (&u.id, &u.text, u.done));
            assert_eq!((t.line_range.0 + 4, t.line_range.1 + 4), u.line_range);
        }
    }
}
