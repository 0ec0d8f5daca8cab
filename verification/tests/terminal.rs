//! Terminals of workers.

use clhorde::daemon::pty_worker::{
    extract_text_from_term, input_bytes, pty_args, read_screen, resize_pty, PtyFailure, PtyHandle,
    PtyOp, PtyRingBuffer, PtyState, RING_CAPACITY,
};
use clhorde::daemon::worker::{
    oneshot_args, spawn_failed, spawn_plan, worker_exited, SpawnPlan, WaitResult, WorkerInput,
    WorkerMessage,
};
use clhorde::prompt::PromptMode;
use clhorde::pty::PtyDimensions;

fn state(output: &[&str]) -> PtyState {
    let mut s = PtyState::new(PtyDimensions {
        cols: 20,
        lines: 4,
    });
    for o in output {
        s.ops.push(PtyOp::Output(o.as_bytes().to_vec()));
    }
    s
}

#[test]
fn the_screen_shows_what_was_put_out() {
    assert_eq!(extract_text_from_term(&state(&["hello", " world\r\nnext"])), "hello world\nnext");
    assert_eq!(extract_text_from_term(&state(&[])), "");
}

#[test]
fn escape_sequences_move_the_cursor_and_clear() {
    assert_eq!(extract_text_from_term(&state(&["abc\x1b[2D", "X"])), "aXc");
    assert_eq!(extract_text_from_term(&state(&["old\x1b[2J\x1b[Hnew"])), "new");
}

#[test]
fn a_resized_terminal_keeps_its_text() {
    let mut s = state(&["hello"]);
    resize_pty(&mut s, 40, 10);
    assert_eq!(
        s.ops.last(),
        Some(&PtyOp::Resize(PtyDimensions {
            cols: 40,
            lines: 10
        }))
    );
    s.ops.push(PtyOp::Output(b" there, in a wider terminal".to_vec()));
    assert_eq!(
        extract_text_from_term(&s),
        "hello there, in a wider terminal"
    );
}

#[test]
fn rows_are_read_without_spacers_and_trailing_space() {
    let row = |s: &str| s.chars().map(|c| (c, false)).collect::<Vec<(char, bool)>>();
    assert_eq!(read_screen(&vec![row("ab  "), row("    "), row("c   "), row("    ")]), "ab\n\nc");
    let wide = vec![('\u{4e2d}', false), (' ', true), ('x', false)];
    assert_eq!(read_screen(&vec![wide]), "\u{4e2d}x");
}

#[test]
fn output_is_kept_and_handed_on() {
    let mut h = PtyHandle::new(3, 20, 4);
    let step = h.on_read(Ok(b"hi".to_vec()));
    assert_eq!(step.broadcast, Some(b"hi".to_vec()));
    assert_eq!(step.message, WorkerMessage::PtyUpdate { prompt_id: 3 });
    assert!(step.go_on);
    assert_eq!(h.ring_buffer.snapshot(), b"hi");
    assert_eq!(extract_text_from_term(&h.state), "hi");
    let end = h.on_read(Ok(vec![]));
    assert_eq!(end.message, WorkerMessage::PtyEof { prompt_id: 3 });
    assert!(!end.go_on);
    let broken = h.on_read(Err(()));
    assert!(!broken.go_on);
    assert_eq!(RING_CAPACITY, 64 * 1024);
}

#[test]
fn the_replay_is_the_end_of_the_output() {
    let mut rb = PtyRingBuffer::new(5);
    let mut all: Vec<u8> = vec![];
    for chunk in [&b"ab"[..], &b"cde"[..], &b"fghijk"[..], &b""[..], &b"l"[..]] {
        rb.extend(chunk);
        all.extend_from_slice(chunk);
        let from = all.len().saturating_sub(5);
        assert_eq!(rb.snapshot(), all[from..].to_vec());
    }
}

#[test]
fn programs_are_given_their_arguments() {
    let last = "--dangerously-skip-permissions";
    assert_eq!(pty_args("do it", &None), vec!["do it", last]);
    assert_eq!(
        pty_args("do it", &Some("s1".into())),
        vec!["--resume", "s1", last]
    );
    assert_eq!(pty_args("do it", &Some("".into())), vec!["--resume", last]);
    let once = oneshot_args("do it", &None, &None);
    assert!(once.contains(&"do it".to_string()));
    assert!(once.contains(&"stream-json".to_string()));
    let resumed = oneshot_args("do it", &Some("s1".into()), &None);
    assert!(resumed.contains(&"s1".to_string()));
    assert_eq!(
        spawn_plan(PromptMode::Interactive, Some((100, 30))),
        SpawnPlan::Terminal { cols: 100, rows: 30 }
    );
    assert_eq!(
        spawn_plan(PromptMode::Interactive, None),
        SpawnPlan::Terminal { cols: 80, rows: 24 }
    );
    assert_eq!(spawn_plan(PromptMode::OneShot, None), SpawnPlan::Once);
}

#[test]
fn input_is_written_as_bytes_until_the_end() {
    assert_eq!(input_bytes(WorkerInput::SendInput("hi".into())), Some(b"hi".to_vec()));
    assert_eq!(input_bytes(WorkerInput::SendBytes(vec![3])), Some(vec![3]));
    assert_eq!(input_bytes(WorkerInput::Kill), None);
}

#[test]
fn a_worker_that_fails_says_why() {
    for f in [PtyFailure::Open, PtyFailure::Spawn, PtyFailure::CloneReader, PtyFailure::TakeWriter] {
        assert!(f.message("agent", "broken").contains("broken"));
    }
    match spawn_failed(2, "agent", "not found") {
        WorkerMessage::SpawnError { prompt_id, error } => {
            assert_eq!(prompt_id, 2);
            assert!(error.contains("agent") && error.contains("not found"));
        }
        other => panic!("expected SpawnError, got {other:?}"),
    }
    assert_eq!(
        worker_exited(2, WaitResult::Exited(Some(3))),
        WorkerMessage::Finished {
            prompt_id: 2,
            exit_code: Some(3)
        }
    );
    assert!(matches!(
        worker_exited(2, WaitResult::Failed),
        WorkerMessage::Finished { .. } | WorkerMessage::SpawnError { .. }
    ));
}
