//! Dependencies between workflows.

use clhorde::openspec::discovery::MarkerMetadata;
use clhorde::scheduler::deps::{evaluate, DepEvaluation};
use clhorde::scheduler::workflow::{Workflow, WorkflowStatus};

fn wf(name: &str, status: WorkflowStatus, deps: &[&str]) -> Workflow {
    let mut w = Workflow::drafted(name);
    w.status = status;
    w.metadata = MarkerMetadata {
        depends_on: deps.iter().map(|s| s.to_string()).collect(),
        ..MarkerMetadata::default()
    };
    w
}

fn map(items: Vec<Workflow>) -> Vec<Workflow> {
    items
}

#[test]
fn no_deps_is_satisfied() {
    let me = wf("a", WorkflowStatus::Queued, &[]);
    assert_eq!(evaluate(&me, &map(vec![])), DepEvaluation::Satisfied);
}

#[test]
fn all_deps_archived_is_satisfied() {
    let me = wf("a", WorkflowStatus::Queued, &["b", "c"]);
    let others = map(vec![
        wf("b", WorkflowStatus::Archived, &[]),
        wf("c", WorkflowStatus::Archived, &[]),
    ]);
    assert_eq!(evaluate(&me, &others), DepEvaluation::Satisfied);
}

#[test]
fn drafted_dep_is_pending() {
    let me = wf("a", WorkflowStatus::Queued, &["b"]);
    let others = map(vec![wf("b", WorkflowStatus::Drafted, &[])]);
    assert_eq!(
        evaluate(&me, &others),
        DepEvaluation::Pending(vec!["b".into()])
    );
}

#[test]
fn implementing_dep_is_pending() {
    let me = wf("a", WorkflowStatus::Queued, &["b"]);
    let others = map(vec![wf("b", WorkflowStatus::Implementing, &[])]);
    assert_eq!(
        evaluate(&me, &others),
        DepEvaluation::Pending(vec!["b".into()])
    );
}

#[test]
fn pending_lists_only_unsatisfied_deps_sorted() {
    let me = wf("a", WorkflowStatus::Queued, &["c", "b", "d"]);
    let others = map(vec![
        wf("b", WorkflowStatus::Queued, &[]),
        wf("c", WorkflowStatus::Archived, &[]),
        wf("d", WorkflowStatus::Verifying, &[]),
    ]);
    assert_eq!(
        evaluate(&me, &others),
        DepEvaluation::Pending(vec!["b".into(), "d".into()])
    );
}

#[test]
fn missing_dep_fails() {
    let me = wf("a", WorkflowStatus::Queued, &["ghost"]);
    match evaluate(&me, &map(vec![])) {
        DepEvaluation::Failed(reason) => {
            assert!(reason.contains("ghost"));
            assert!(reason.contains("not found"));
        }
        other => panic!("expected Failed, got {other:?}"),
    }
}

#[test]
fn cancelled_dep_fails() {
    let me = wf("a", WorkflowStatus::Queued, &["b"]);
    let others = map(vec![wf("b", WorkflowStatus::Cancelled, &[])]);
    match evaluate(&me, &others) {
        DepEvaluation::Failed(reason) => {
            assert!(reason.contains("'b'"));
            assert!(reason.contains("cancelled"));
        }
        other => panic!("expected Failed, got {other:?}"),
    }
}

#[test]
fn failed_dep_propagates_reason() {
    let me = wf("a", WorkflowStatus::Queued, &["b"]);
    let others = map(vec![wf(
        "b",
        WorkflowStatus::Failed {
            reason: "verify exited with code 2".into(),
        },
        &[],
    )]);
    match evaluate(&me, &others) {
        DepEvaluation::Failed(reason) => {
            assert!(reason.contains("'b'"));
            assert!(reason.contains("verify exited with code 2"));
        }
        other => panic!("expected Failed, got {other:?}"),
    }
}

#[test]
fn self_dep_is_a_cycle() {
    let me = wf("a", WorkflowStatus::Queued, &["a"]);
    match evaluate(&me, &map(vec![])) {
        DepEvaluation::Failed(reason) => {
            assert!(reason.contains("cycle"));
            assert!(reason.contains("a → a"));
        }
        other => panic!("expected Failed, got {other:?}"),
    }
}

#[test]
fn two_workflow_cycle_detected() {
    let me = wf("a", WorkflowStatus::Queued, &["b"]);
    let others = map(vec![wf("b", WorkflowStatus::Queued, &["a"])]);
    match evaluate(&me, &others) {
        DepEvaluation::Failed(reason) => {
            assert!(reason.contains("cycle"));
            assert!(reason.contains("a → b → a"));
        }
        other => panic!("expected Failed, got {other:?}"),
    }
}

#[test]
fn three_workflow_cycle_detected() {
    let me = wf("a", WorkflowStatus::Queued, &["b"]);
    let others = map(vec![
        wf("b", WorkflowStatus::Queued, &["c"]),
        wf("c", WorkflowStatus::Queued, &["a"]),
    ]);
    match evaluate(&me, &others) {
        DepEvaluation::Failed(reason) => {
            assert!(reason.contains("cycle"));
            assert!(reason.contains("a → b → c → a"));
        }
        other => panic!("expected Failed, got {other:?}"),
    }
}

#[test]
fn cycle_not_through_me_is_pending_not_failed() {
    let me = wf("a", WorkflowStatus::Queued, &["b"]);
    let others = map(vec![
        wf("b", WorkflowStatus::Queued, &["c"]),
        wf("c", WorkflowStatus::Queued, &["b"]),
    ]);
    assert_eq!(
        evaluate(&me, &others),
        DepEvaluation::Pending(vec!["b".into()])
    );
}

#[test]
fn one_failed_dep_short_circuits_even_if_others_pending() {
    let me = wf("a", WorkflowStatus::Queued, &["b", "c"]);
    let others = map(vec![
        wf("b", WorkflowStatus::Queued, &[]),
        wf("c", WorkflowStatus::Cancelled, &[]),
    ]);
    match evaluate(&me, &others) {
        DepEvaluation::Failed(reason) => assert!(reason.contains("'c'")),
        other => panic!("expected Failed, got {other:?}"),
    }
}

#[test]
fn duplicate_deps_are_deduplicated_in_pending() {
    let me = wf("a", WorkflowStatus::Queued, &["b", "b"]);
    let others = map(vec![wf("b", WorkflowStatus::Queued, &[])]);
    assert_eq!(
        evaluate(&me, &others),
        DepEvaluation::Pending(vec!["b".into()])
    );
}
