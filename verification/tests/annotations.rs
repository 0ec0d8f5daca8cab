//! Directives in comments.

use clhorde::openspec::annotations::{
    annotate, extract_clhorde_bodies, parse_section, parse_task, Granularity, SectionAnnotations,
    TaskAnnotations,
};
use clhorde::openspec::tasks_parser;

fn ann_section(line: &str) -> SectionAnnotations {
    parse_section(line)
}

fn ann_task(line: &str) -> TaskAnnotations {
    parse_task(line)
}

#[test]
fn extracts_single_clhorde_comment() {
    let bodies = extract_clhorde_bodies("## 3. Tests <!-- clhorde: depends 2 -->");
    assert_eq!(bodies, vec!["depends 2"]);
}

#[test]
fn ignores_non_clhorde_comments() {
    let bodies = extract_clhorde_bodies("## 3. Tests <!-- TODO: refactor -->");
    assert!(bodies.is_empty());
}

#[test]
fn handles_multiple_clhorde_comments_on_one_line() {
    let bodies = extract_clhorde_bodies(
        "- [ ] 1.1 X <!-- clhorde: needs 0.1 --> <!-- clhorde: needs 0.2 -->",
    );
    assert_eq!(bodies, vec!["needs 0.1", "needs 0.2"]);
}

#[test]
fn unterminated_comment_is_ignored() {
    let bodies = extract_clhorde_bodies("## 3. Tests <!-- clhorde: depends 2");
    assert!(bodies.is_empty());
}

#[test]
fn section_depends_single_value() {
    let a = ann_section("## 3. Tests <!-- clhorde: depends 2 -->");
    assert_eq!(a.depends, vec!["2"]);
}

#[test]
fn section_depends_comma_separated() {
    let a = ann_section("## 3. Tests <!-- clhorde: depends 1,2,3 -->");
    assert_eq!(a.depends, vec!["1", "2", "3"]);
}

#[test]
fn section_depends_space_separated() {
    let a = ann_section("## 3. Tests <!-- clhorde: depends 1 2 3 -->");
    assert_eq!(a.depends, vec!["1", "2", "3"]);
}

#[test]
fn section_multiple_directives() {
    let a = ann_section(
        "## 3. Tests <!-- clhorde: depends 2; parallel-with 4 -->",
    );
    assert_eq!(a.depends, vec!["2"]);
    assert_eq!(a.parallel_with, vec!["4"]);
}

#[test]
fn section_granularity_recognized() {
    let a = ann_section("## 3. T <!-- clhorde: granularity task -->");
    assert_eq!(a.granularity, Some(Granularity::Task));

    let a = ann_section("## 3. T <!-- clhorde: granularity phase -->");
    assert_eq!(a.granularity, Some(Granularity::Phase));

    let a = ann_section("## 3. T <!-- clhorde: granularity nope -->");
    assert_eq!(a.granularity, None);
}

#[test]
fn section_prompt_template_override() {
    let a = ann_section(
        "## 3. T <!-- clhorde: prompt-template apply-section-strict -->",
    );
    assert_eq!(a.prompt_template.as_deref(), Some("apply-section-strict"));
}

#[test]
fn unknown_keys_are_ignored() {
    let a = ann_section(
        "## 3. T <!-- clhorde: depends 2; bogus value; parallel-with 1 -->",
    );
    assert_eq!(a.depends, vec!["2"]);
    assert_eq!(a.parallel_with, vec!["1"]);
}

#[test]
fn empty_clhorde_comment_yields_default() {
    let a = ann_section("## 3. T <!-- clhorde: -->");
    assert_eq!(a, SectionAnnotations::default());
}

#[test]
fn no_comment_yields_default() {
    let a = ann_section("## 3. Tests");
    assert_eq!(a, SectionAnnotations::default());
}

#[test]
fn task_needs_single_value() {
    let a = ann_task("- [ ] 3.2 E2E <!-- clhorde: needs 2.1 -->");
    assert_eq!(a.needs, vec!["2.1"]);
}

#[test]
fn task_needs_multiple() {
    let a = ann_task("- [ ] 3.2 E2E <!-- clhorde: needs 2.1, 2.2 -->");
    assert_eq!(a.needs, vec!["2.1", "2.2"]);
}

#[test]
fn task_ignores_section_keys() {
    let a = ann_task("- [ ] 3.2 E2E <!-- clhorde: depends 2; needs 2.1 -->");
    assert_eq!(a.needs, vec!["2.1"]);
}

#[test]
fn annotate_walks_full_graph() {
    let input = "\
## 1. A
- [ ] 1.1 first
## 3. C <!-- clhorde: depends 1; parallel-with 2 -->
- [ ] 3.1 second <!-- clhorde: needs 1.1 -->
";
    let graph = tasks_parser::parse(input);
    let annotated = annotate(graph);
    assert_eq!(annotated.len(), 2);

    assert_eq!(annotated[0].annotations, SectionAnnotations::default());
    assert_eq!(annotated[0].items.len(), 1);
    assert_eq!(annotated[0].items[0].annotations, TaskAnnotations::default());

    assert_eq!(annotated[1].annotations.depends, vec!["1"]);
    assert_eq!(annotated[1].annotations.parallel_with, vec!["2"]);
    assert_eq!(annotated[1].items[0].annotations.needs, vec!["1.1"]);
}

#[test]
fn annotate_preserves_section_metadata() {
    let input = "\
## 2. Foo <!-- clhorde: depends 1 -->
- [ ] 2.1 bar
";
    let graph = tasks_parser::parse(input);
    let annotated = annotate(graph);
    assert_eq!(annotated[0].section.id, "2");
    assert_eq!(annotated[0].section.title, "Foo");
    assert_eq!(annotated[0].section.line, 1);
}
