//! Which parts of a workflow may run.

use std::collections::HashSet;

use clhorde::openspec::annotations::{annotate, AnnotatedSection, Granularity};
use clhorde::openspec::dag::{self, Dag};
use clhorde::openspec::tasks_parser;
use clhorde::scheduler::dispatch::{
    is_node_done, is_section_done, is_task_done, next_runnable_nodes,
};

fn dag_from(md: &str) -> Dag {
    let graph = tasks_parser::parse(md);
    let annotated = annotate(graph);
    dag::build(&annotated).unwrap()
}

fn sections_from(md: &str) -> Vec<AnnotatedSection> {
    let graph = tasks_parser::parse(md);
    annotate(graph)
}

fn s(items: &[usize]) -> HashSet<usize> {
    items.iter().copied().collect()
}

#[test]
fn initial_runnable_set_is_only_root_nodes() {
    let dag = dag_from(
        "\
## 1. A
- [ ] 1.1 a
## 2. B
- [ ] 2.1 b
## 3. C
- [ ] 3.1 c
",
    );
    let runnable = next_runnable_nodes(&dag, &s(&[]), &s(&[]));
    assert_eq!(runnable, vec![0]);
}

#[test]
fn runnable_advances_as_each_predecessor_completes() {
    let dag = dag_from(
        "\
## 1. A
- [ ] 1.1 a
## 2. B
- [ ] 2.1 b
## 3. C
- [ ] 3.1 c
",
    );
    assert_eq!(next_runnable_nodes(&dag, &s(&[0]), &s(&[])), vec![1]);
    assert_eq!(next_runnable_nodes(&dag, &s(&[0, 1]), &s(&[])), vec![2]);
    assert_eq!(next_runnable_nodes(&dag, &s(&[0, 1, 2]), &s(&[])), Vec::<usize>::new());
}

#[test]
fn dispatched_nodes_are_skipped() {
    let dag = dag_from(
        "\
## 1. A
- [ ] 1.1 a
## 2. B
- [ ] 2.1 b
",
    );
    let runnable = next_runnable_nodes(&dag, &s(&[]), &s(&[0]));
    assert!(runnable.is_empty());
}

#[test]
fn parallel_independents_run_concurrently() {
    let dag = dag_from(
        "\
## 1. A
- [ ] 1.1 a
## 2. B <!-- clhorde: depends 1 -->
- [ ] 2.1 b
## 3. C <!-- clhorde: depends 1 -->
- [ ] 3.1 c
",
    );
    let runnable = next_runnable_nodes(&dag, &s(&[0]), &s(&[]));
    assert_eq!(runnable, vec![1, 2]);
}

#[test]
fn already_completed_node_is_not_re_listed() {
    let dag = dag_from(
        "\
## 1. A
- [ ] 1.1 a
## 2. B
- [ ] 2.1 b
",
    );
    let runnable = next_runnable_nodes(&dag, &s(&[0]), &s(&[]));
    assert_eq!(runnable, vec![1]);
}

#[test]
fn fan_in_waits_for_every_predecessor() {
    let dag = dag_from(
        "\
## 1. A
- [ ] 1.1 a
## 2. B
- [ ] 2.1 b
## 3. C <!-- clhorde: depends 1, 2 -->
- [ ] 3.1 c
",
    );
    assert!(next_runnable_nodes(&dag, &s(&[0]), &s(&[1])).is_empty());
    assert_eq!(next_runnable_nodes(&dag, &s(&[0, 1]), &s(&[])), vec![2]);
}

#[test]
fn section_with_all_tasks_checked_is_done() {
    let sections = sections_from("## 1. A\n- [x] 1.1 a\n- [x] 1.2 b\n");
    assert!(is_section_done("1", &sections));
}

#[test]
fn section_with_one_unchecked_task_is_not_done() {
    let sections = sections_from("## 1. A\n- [x] 1.1 a\n- [ ] 1.2 b\n");
    assert!(!is_section_done("1", &sections));
}

#[test]
fn empty_section_is_not_done() {
    let sections = sections_from("## 1. A\n");
    assert!(!is_section_done("1", &sections));
}

#[test]
fn missing_section_id_is_not_done() {
    let sections = sections_from("## 1. A\n- [x] 1.1 a\n");
    assert!(!is_section_done("99", &sections));
}

#[test]
fn task_done_lookup_works_across_sections() {
    let sections = sections_from(
        "\
## 1. A
- [x] 1.1 done
- [ ] 1.2 pending
## 2. B
- [x] 2.1 also done
",
    );
    assert!(is_task_done("1.1", &sections));
    assert!(!is_task_done("1.2", &sections));
    assert!(is_task_done("2.1", &sections));
    assert!(!is_task_done("nope", &sections));
}

#[test]
fn node_done_section_granularity() {
    let dag = dag_from("## 1. A\n- [ ] 1.1 a\n## 2. B\n- [ ] 2.1 b\n");

    let unchecked = sections_from("## 1. A\n- [ ] 1.1 a\n## 2. B\n- [ ] 2.1 b\n");
    assert!(!is_node_done(&dag, 0, &unchecked));

    let one_done = sections_from("## 1. A\n- [x] 1.1 a\n## 2. B\n- [ ] 2.1 b\n");
    assert!(is_node_done(&dag, 0, &one_done));
    assert!(!is_node_done(&dag, 1, &one_done));
}

#[test]
fn node_done_task_granularity() {
    let dag = dag_from(
        "\
## 1. A <!-- clhorde: granularity task -->
- [ ] 1.1 a
- [ ] 1.2 b
",
    );
    assert_eq!(dag.granularity, Granularity::Task);

    let one_done = sections_from(
        "\
## 1. A
- [x] 1.1 a
- [ ] 1.2 b
",
    );
    assert!(is_node_done(&dag, 0, &one_done));
    assert!(!is_node_done(&dag, 1, &one_done));
}

#[test]
fn node_done_phase_granularity() {
    let dag = dag_from(
        "\
## 1. A <!-- clhorde: granularity phase -->
- [ ] 1.1 a
## 2. B
- [ ] 2.1 b
",
    );
    assert_eq!(dag.granularity, Granularity::Phase);

    let half = sections_from(
        "\
## 1. A
- [x] 1.1 a
## 2. B
- [ ] 2.1 b
",
    );
    assert!(!is_node_done(&dag, 0, &half));

    let all = sections_from(
        "\
## 1. A
- [x] 1.1 a
## 2. B
- [x] 2.1 b
",
    );
    assert!(is_node_done(&dag, 0, &all));
}

#[test]
fn a_ticked_task_without_an_id_is_done() {
    let secs = sections_from("## 1. A <!-- clhorde: granularity task -->\n- [x] Free-form\n");
    let dag = dag::build(&secs).unwrap();
    assert!(is_node_done(&dag, 0, &secs));
    let open = sections_from("## 1. A\n- [ ] Free-form\n");
    assert!(!is_node_done(&dag, 0, &open));
    assert!(!is_task_done("1.1", &secs));
}

#[test]
fn a_task_that_was_moved_is_found_by_its_id() {
    let dag = dag_from(
        "## 1. A <!-- clhorde: granularity task -->\n- [ ] 1.1 a\n- [ ] 1.2 b\n",
    );
    let moved = sections_from("## 1. A\n- [x] 1.2 b\n- [ ] 1.1 a\n");
    assert!(!is_node_done(&dag, 0, &moved));
    assert!(is_node_done(&dag, 1, &moved));
}

#[test]
fn tasks_that_share_an_id_are_done_together() {
    let secs = sections_from(
        "## 1. A <!-- clhorde: granularity task -->\n- [x] 1.1 a\n- [ ] 1.1 b\n",
    );
    let dag = dag::build(&secs).unwrap();
    assert!(is_node_done(&dag, 0, &secs));
    assert!(is_node_done(&dag, 1, &secs));
}

#[test]
fn a_made_up_id_is_told_from_a_given_one() {
    let secs = sections_from(
        "## 1. A <!-- clhorde: granularity task -->\n- [x] 1.2 a\n- [ ] Free-form\n",
    );
    let dag = dag::build(&secs).unwrap();
    assert_eq!(dag.nodes[1].id, "1.2");
    assert!(is_node_done(&dag, 0, &secs));
    assert!(!is_node_done(&dag, 1, &secs));
}
