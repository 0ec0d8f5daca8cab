//! The graph of work.

use clhorde::openspec::annotations::{annotate, Granularity};
use clhorde::openspec::dag::{build, Dag, DagError};
use clhorde::openspec::tasks_parser;

fn build_from_md(input: &str) -> Result<Dag, DagError> {
    let graph = tasks_parser::parse(input);
    let annotated = annotate(graph);
    build(&annotated)
}

#[test]
fn empty_input_is_error() {
    let err = build_from_md("").unwrap_err();
    assert_eq!(err, DagError::Empty);
}

#[test]
fn default_sequential_chains_sections() {
    let dag = build_from_md(
        "\
## 1. A
- [ ] 1.1 a
## 2. B
- [ ] 2.1 b
## 3. C
- [ ] 3.1 c
",
    )
    .unwrap();

    assert_eq!(dag.granularity, Granularity::Section);
    assert_eq!(dag.nodes.len(), 3);
    assert_eq!(dag.nodes[0].deps, Vec::<usize>::new());
    assert_eq!(dag.nodes[1].deps, vec![0]);
    assert_eq!(dag.nodes[2].deps, vec![1]);
}

#[test]
fn explicit_depends_replaces_sequential() {
    let dag = build_from_md(
        "\
## 1. A
- [ ] 1.1 a
## 2. B
- [ ] 2.1 b
## 3. C <!-- clhorde: depends 1 -->
- [ ] 3.1 c
",
    )
    .unwrap();
    assert_eq!(dag.nodes[2].deps, vec![0]);
}

#[test]
fn explicit_depends_multi_value() {
    let dag = build_from_md(
        "\
## 1. A
- [ ] 1.1 a
## 2. B
- [ ] 2.1 b
## 3. C <!-- clhorde: depends 1,2 -->
- [ ] 3.1 c
",
    )
    .unwrap();
    assert_eq!(dag.nodes[2].deps, vec![0, 1]);
}

#[test]
fn parallel_with_is_recorded() {
    let dag = build_from_md(
        "\
## 1. A
- [ ] 1.1 a
## 2. B <!-- clhorde: parallel-with 1 -->
- [ ] 2.1 b
",
    )
    .unwrap();
    assert_eq!(dag.nodes[1].parallel_with, vec![0]);
}

#[test]
fn unknown_depends_ref_is_error() {
    let err = build_from_md(
        "\
## 1. A
- [ ] 1.1 a
## 2. B <!-- clhorde: depends 99 -->
- [ ] 2.1 b
",
    )
    .unwrap_err();
    match err {
        DagError::UnknownRef { from, to, kind } => {
            assert_eq!(from, "2");
            assert_eq!(to, "99");
            assert_eq!(kind, "depends");
        }
        other => panic!("expected UnknownRef, got {other:?}"),
    }
}

#[test]
fn unknown_parallel_with_ref_is_error() {
    let err = build_from_md(
        "\
## 1. A
- [ ] 1.1 a
## 2. B <!-- clhorde: parallel-with 99 -->
- [ ] 2.1 b
",
    )
    .unwrap_err();
    assert!(matches!(
        err,
        DagError::UnknownRef { kind: "parallel-with", .. }
    ));
}

#[test]
fn cycle_is_rejected() {
    let err = build_from_md(
        "\
## 1. A <!-- clhorde: depends 2 -->
- [ ] 1.1 a
## 2. B
- [ ] 2.1 b
",
    )
    .unwrap_err();
    match err {
        DagError::Cycle { involved } => {
            assert!(involved.contains(&"1".to_string()));
            assert!(involved.contains(&"2".to_string()));
        }
        other => panic!("expected Cycle, got {other:?}"),
    }
}

#[test]
fn three_section_cycle_is_rejected() {
    let err = build_from_md(
        "\
## 1. A <!-- clhorde: depends 3 -->
- [ ] 1.1 a
## 2. B
- [ ] 2.1 b
## 3. C
- [ ] 3.1 c
",
    )
    .unwrap_err();
    assert!(matches!(err, DagError::Cycle { .. }));
}

#[test]
fn prompt_template_propagates() {
    let dag = build_from_md(
        "\
## 1. A <!-- clhorde: prompt-template strict -->
- [ ] 1.1 a
",
    )
    .unwrap();
    assert_eq!(dag.nodes[0].prompt_template.as_deref(), Some("strict"));
}

#[test]
fn source_line_records_heading_line() {
    let input = "\n## 1. A\n- [ ] 1.1 a\n\n## 2. B\n- [ ] 2.1 b\n";
    let dag = build_from_md(input).unwrap();
    assert_eq!(dag.nodes[0].source_line, 2);
    assert_eq!(dag.nodes[1].source_line, 5);
}

#[test]
fn task_granularity_emits_one_node_per_task() {
    let dag = build_from_md(
        "\
## 1. A <!-- clhorde: granularity task -->
- [ ] 1.1 a
- [ ] 1.2 b
## 2. B
- [ ] 2.1 c
",
    )
    .unwrap();
    assert_eq!(dag.granularity, Granularity::Task);
    assert_eq!(dag.nodes.len(), 3);
    assert_eq!(dag.nodes[0].id, "1.1");
    assert_eq!(dag.nodes[1].id, "1.2");
    assert_eq!(dag.nodes[2].id, "2.1");
}

#[test]
fn task_default_sequential_within_section_resets_across_sections() {
    let dag = build_from_md(
        "\
## 1. A <!-- clhorde: granularity task -->
- [ ] 1.1 a
- [ ] 1.2 b
## 2. B
- [ ] 2.1 c
",
    )
    .unwrap();
    assert_eq!(dag.nodes[0].deps, Vec::<usize>::new());
    assert_eq!(dag.nodes[1].deps, vec![0]);
    assert_eq!(dag.nodes[2].deps, Vec::<usize>::new());
}

#[test]
fn task_needs_overrides_default() {
    let dag = build_from_md(
        "\
## 1. A <!-- clhorde: granularity task -->
- [ ] 1.1 a
- [ ] 1.2 b
- [ ] 1.3 c <!-- clhorde: needs 1.1 -->
",
    )
    .unwrap();
    assert_eq!(dag.nodes[2].deps, vec![0]);
}

#[test]
fn task_needs_unknown_ref_is_error() {
    let err = build_from_md(
        "\
## 1. A <!-- clhorde: granularity task -->
- [ ] 1.1 a <!-- clhorde: needs 9.9 -->
",
    )
    .unwrap_err();
    assert!(matches!(err, DagError::UnknownRef { kind: "needs", .. }));
}

#[test]
fn phase_granularity_collapses_to_single_node() {
    let dag = build_from_md(
        "\
## 1. A <!-- clhorde: granularity phase -->
- [ ] 1.1 a
## 2. B
- [ ] 2.1 b
",
    )
    .unwrap();
    assert_eq!(dag.granularity, Granularity::Phase);
    assert_eq!(dag.nodes.len(), 1);
    assert_eq!(dag.nodes[0].id, "apply");
}

#[test]
fn a_heading_that_groups_others_is_no_node() {
    let dag = build_from_md("## 1. Top\n### 1.2 Sub\n- [ ] 1.2.1 Nested\n").unwrap();
    assert_eq!(dag.granularity, Granularity::Section);
    let ids: Vec<&str> = dag.nodes.iter().map(|n| n.id.as_str()).collect();
    assert_eq!(ids, vec!["1.2"]);
    assert_eq!(dag.nodes[0].deps, Vec::<usize>::new());

    let dag = build_from_md(
        "\
## 1. Top
### 1.1 A
- [ ] 1.1.1 a
### 1.2 B
- [ ] 1.2.1 b
## 2. C <!-- clhorde: depends 1.1 -->
- [ ] 2.1 c
",
    )
    .unwrap();
    let ids: Vec<&str> = dag.nodes.iter().map(|n| n.id.as_str()).collect();
    assert_eq!(ids, vec!["1.1", "1.2", "2"]);
    assert_eq!(dag.nodes[1].deps, vec![0]);
    assert_eq!(dag.nodes[2].deps, vec![0]);
}

fn unknown_ref(input: &str) -> (String, String, &'static str) {
    match build_from_md(input) {
        Err(DagError::UnknownRef { from, to, kind }) => (from, to, kind),
        other => panic!("expected UnknownRef, got {other:?}"),
    }
}

#[test]
fn a_dangling_reference_on_a_grouping_heading_is_rejected() {
    let md = "## 1. Top <!-- clhorde: depends 99 -->\n### 1.2 Sub\n- [ ] 1.2.1 a\n";
    assert_eq!(unknown_ref(md), ("1".to_string(), "99".to_string(), "depends"));
    let md = "## 1. Top <!-- clhorde: parallel-with 98 -->\n### 1.2 Sub\n- [ ] 1.2.1 a\n";
    assert_eq!(unknown_ref(md), ("1".to_string(), "98".to_string(), "parallel-with"));
}

#[test]
fn the_first_unknown_reference_is_named_before_cycles() {
    let md = "\
## 1. A <!-- clhorde: depends 2; parallel-with 7,8 -->
- [ ] 1.1 a
## 2. B <!-- clhorde: depends 1,9 -->
- [ ] 2.1 b
";
    assert_eq!(unknown_ref(md), ("1".to_string(), "7".to_string(), "parallel-with"));
    let md = "\
## 1. A <!-- clhorde: parallel-with 7; depends 2,6 -->
- [ ] 1.1 a
## 2. B <!-- clhorde: depends 1 -->
- [ ] 2.1 b
";
    assert_eq!(unknown_ref(md), ("1".to_string(), "6".to_string(), "depends"));
}

#[test]
fn a_grouping_heading_stands_for_the_leaves_below_it() {
    let dag = build_from_md(
        "\
## 1. Top
### 1.1 A
#### 1.1.1 Deep
- [ ] 1.1.1.1 a
### 1.2 B
- [ ] 1.2.1 b
## 10. Other
- [ ] 10.1 o
## 2. C <!-- clhorde: depends 1; parallel-with 1.1 -->
- [ ] 2.1 c
",
    )
    .unwrap();
    let ids: Vec<&str> = dag.nodes.iter().map(|n| n.id.as_str()).collect();
    assert_eq!(ids, vec!["1.1.1", "1.2", "10", "2"]);
    assert_eq!(dag.nodes[3].deps, vec![0, 1]);
    assert_eq!(dag.nodes[3].parallel_with, vec![0]);
}

#[test]
fn a_grouping_heading_passes_on_what_it_depends_on() {
    let dag = build_from_md(
        "\
## 1. A
- [ ] 1.1 a
## 2. B
- [ ] 2.1 b
## 3. Top <!-- clhorde: depends 1 -->
### 3.1 C
- [ ] 3.1.1 c
### 3.2 D <!-- clhorde: depends 3 -->
- [ ] 3.2.1 d
",
    )
    .unwrap();
    let ids: Vec<&str> = dag.nodes.iter().map(|n| n.id.as_str()).collect();
    assert_eq!(ids, vec!["1", "2", "3.1", "3.2"]);
    assert_eq!(dag.nodes[2].deps, vec![0]);
    assert_eq!(dag.nodes[3].deps, vec![0]);
}

#[test]
fn a_grouping_heading_that_waits_for_its_own_leaves_is_a_cycle() {
    let md = "\
## 1. Top <!-- clhorde: depends 1.2 -->
### 1.1 A
- [ ] 1.1.1 a
### 1.2 B
- [ ] 1.2.1 b
";
    match build_from_md(md) {
        Err(DagError::Cycle { involved }) => {
            assert_eq!(involved, vec!["1.1", "1.2", "1.1"]);
        }
        other => panic!("expected Cycle, got {other:?}"),
    }
}
