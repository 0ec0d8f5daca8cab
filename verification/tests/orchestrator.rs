//! The daemon's queue of prompts and its workers.

use clhorde::daemon::effect::Effect;
use clhorde::daemon::orchestrator::{DispatchStep, Orchestrator};
use clhorde::daemon::restore::SavedPrompt;
use clhorde::daemon::worker::{SpawnResult, WorkerInput, WorkerMessage};
use clhorde::keymap::TomlSettings;
use clhorde::prompt::{Prompt, PromptMode, PromptStatus};
use clhorde::protocol::{ClientRequest, DaemonEvent};

const NOW: u64 = 1_750_000_000_000;

fn new_for_test() -> Orchestrator {
    Orchestrator::new(&TomlSettings::default(), None, &vec![], &mut vec![])
}

fn request(orch: &mut Orchestrator, req: ClientRequest, session_id: usize) -> Vec<Effect> {
    let mut out = vec![];
    orch.handle_request(req, session_id, NOW, "new-uuid".to_string(), &mut out);
    out
}

fn apply(orch: &mut Orchestrator, msg: WorkerMessage) -> Vec<Effect> {
    let mut out = vec![];
    orch.apply_message(msg, NOW, String::new(), &mut out);
    out
}

fn add(orch: &mut Orchestrator, text: String, mode: PromptMode) -> Vec<Effect> {
    let mut out = vec![];
    orch.add_prompt(text, None, mode, false, vec![], NOW, "new-uuid".to_string(), &mut out);
    out
}

/// The first event that reaches the session.
fn received(orch: &Orchestrator, session: usize, out: Vec<Effect>) -> Option<DaemonEvent> {
    let subscribed = orch.sessions.recipients().contains(&session);
    out.into_iter().find_map(|e| match e {
        Effect::SendTo { session_id, event } if session_id == session => Some(event),
        Effect::Broadcast(event) if subscribed => Some(event),
        _ => None,
    })
}

fn insert_prompt(orch: &mut Orchestrator, id: usize, status: PromptStatus) {
    let mut p = Prompt::new(id, format!("prompt-{id}"), None, PromptMode::Interactive, format!("uuid-{id}"));
    p.status = status;
    orch.prompts.push(p);
    if id >= orch.next_id {
        orch.next_id = id + 1;
    }
}

#[test]
fn store_drop_running() {
    let mut orch = new_for_test();
    insert_prompt(&mut orch, 1, PromptStatus::Running);
    insert_prompt(&mut orch, 2, PromptStatus::Idle);
    insert_prompt(&mut orch, 3, PromptStatus::Completed);
    insert_prompt(&mut orch, 4, PromptStatus::Pending);

    let dropped = orch.store_drop("running", &mut vec![]);
    assert_eq!(dropped, 2);
    let remaining_ids: Vec<usize> = orch.prompts.iter().map(|p| p.id).collect();
    assert_eq!(remaining_ids, vec![3, 4]);
}

#[test]
fn store_keep_running() {
    let mut orch = new_for_test();
    insert_prompt(&mut orch, 1, PromptStatus::Running);
    insert_prompt(&mut orch, 2, PromptStatus::Idle);
    insert_prompt(&mut orch, 3, PromptStatus::Completed);
    insert_prompt(&mut orch, 4, PromptStatus::Pending);
    insert_prompt(&mut orch, 5, PromptStatus::Failed);

    let dropped = orch.store_keep("running", &mut vec![]);
    assert_eq!(dropped, 3);
    let remaining_statuses: Vec<PromptStatus> =
        orch.prompts.iter().map(|p| p.status).collect();
    assert_eq!(
        remaining_statuses,
        vec![PromptStatus::Running, PromptStatus::Idle]
    );
}

#[test]
fn store_keep_pending() {
    let mut orch = new_for_test();
    insert_prompt(&mut orch, 1, PromptStatus::Running);
    insert_prompt(&mut orch, 2, PromptStatus::Pending);
    insert_prompt(&mut orch, 3, PromptStatus::Completed);
    insert_prompt(&mut orch, 4, PromptStatus::Failed);

    let dropped = orch.store_keep("pending", &mut vec![]);
    assert_eq!(dropped, 2);
    let remaining_ids: Vec<usize> = orch.prompts.iter().map(|p| p.id).collect();
    assert_eq!(remaining_ids, vec![1, 2]);
}

#[test]
fn store_drop_completed() {
    let mut orch = new_for_test();
    insert_prompt(&mut orch, 1, PromptStatus::Completed);
    insert_prompt(&mut orch, 2, PromptStatus::Failed);
    insert_prompt(&mut orch, 3, PromptStatus::Completed);

    let dropped = orch.store_drop("completed", &mut vec![]);
    assert_eq!(dropped, 2);
    assert_eq!(orch.prompts.len(), 1);
    assert_eq!(orch.prompts[0].id, 2);
}

#[test]
fn apply_message_finished_exit_1_marks_failed() {
    let mut orch = new_for_test();
    insert_prompt(&mut orch, 1, PromptStatus::Running);

    apply(&mut orch, WorkerMessage::Finished {
        prompt_id: 1,
        exit_code: Some(1),
    });

    let prompt = orch.prompts.iter().find(|p| p.id == 1).unwrap();
    assert_eq!(prompt.status, PromptStatus::Failed);
    assert!(prompt.error.is_some());
}

#[test]
fn apply_message_finished_exit_none_marks_completed() {
    let mut orch = new_for_test();
    insert_prompt(&mut orch, 1, PromptStatus::Running);

    apply(&mut orch, WorkerMessage::Finished {
        prompt_id: 1,
        exit_code: None,
    });

    let prompt = orch.prompts.iter().find(|p| p.id == 1).unwrap();
    assert_eq!(prompt.status, PromptStatus::Completed);
}

#[test]
fn add_prompt_increments_next_id_and_adds_prompt() {
    let mut orch = new_for_test();
    assert_eq!(orch.next_id, 1);

    add(&mut orch, "hello".into(), PromptMode::Interactive);
    assert_eq!(orch.prompts.len(), 1);
    assert_eq!(orch.prompts[0].id, 1);
    assert_eq!(orch.next_id, 2);

    add(&mut orch, "world".into(), PromptMode::OneShot);
    assert_eq!(orch.prompts.len(), 2);
    assert_eq!(orch.prompts[1].id, 2);
    assert_eq!(orch.next_id, 3);
}

#[test]
fn add_prompt_broadcasts_prompt_added() {
    let mut orch = new_for_test();
        orch.sessions.add_session_with_id(1);
    orch.sessions.set_subscribed(1, true);

    let out = add(&mut orch, "test".into(), PromptMode::Interactive);

    let event = received(&orch, 1, out).expect("should receive PromptAdded");
    assert!(matches!(event, DaemonEvent::PromptAdded(_)));
}

#[test]
fn retry_completed_prompt_creates_new_pending() {
    let mut orch = new_for_test();
    orch.max_workers = 0;
    insert_prompt(&mut orch, 1, PromptStatus::Completed);

    request(&mut orch, ClientRequest::RetryPrompt { prompt_id: 1 }, 0);
    assert_eq!(orch.prompts.len(), 2);
    assert_eq!(orch.prompts[1].status, PromptStatus::Pending);
    assert_eq!(orch.prompts[1].text, "prompt-1");
}

#[test]
fn retry_running_prompt_is_noop() {
    let mut orch = new_for_test();
    insert_prompt(&mut orch, 1, PromptStatus::Running);

    request(&mut orch, ClientRequest::RetryPrompt { prompt_id: 1 }, 0);

    assert_eq!(orch.prompts.len(), 1);
}

#[test]
fn resume_completed_prompt_resets_to_pending() {
    let mut orch = new_for_test();
    orch.max_workers = 0;
    insert_prompt(&mut orch, 1, PromptStatus::Completed);
    orch.prompts[0].output = Some("old output".into());

    request(&mut orch, ClientRequest::ResumePrompt { prompt_id: 1 }, 0);

    assert_eq!(orch.prompts[0].status, PromptStatus::Pending);
    assert!(orch.prompts[0].resume);
    assert!(orch.prompts[0].output.is_none());
}

#[test]
fn delete_prompt_removes_from_list() {
    let mut orch = new_for_test();
    insert_prompt(&mut orch, 1, PromptStatus::Completed);
    insert_prompt(&mut orch, 2, PromptStatus::Pending);

    orch.delete_prompt(1, &mut vec![]);
    assert_eq!(orch.prompts.len(), 1);
    assert_eq!(orch.prompts[0].id, 2);
}

#[test]
fn set_max_workers_clamps_and_broadcasts() {
    let mut orch = new_for_test();
        orch.sessions.add_session_with_id(1);
    orch.sessions.set_subscribed(1, true);

    let out = request(&mut orch, ClientRequest::SetMaxWorkers(10), 1);

    assert_eq!(orch.max_workers, 10);
    let event = received(&orch, 1, out).expect("should receive MaxWorkersChanged");
    assert!(matches!(
        event,
        DaemonEvent::MaxWorkersChanged { count: 10 }
    ));
}

#[test]
fn set_max_workers_clamps_to_minimum_1() {
    let mut orch = new_for_test();
    request(&mut orch, ClientRequest::SetMaxWorkers(0), 0);
    assert_eq!(orch.max_workers, 1);
}

#[test]
fn get_state_sends_snapshot_to_requesting_session() {
    let mut orch = new_for_test();
    insert_prompt(&mut orch, 1, PromptStatus::Pending);
        orch.sessions.add_session_with_id(1);

    let out = request(&mut orch, ClientRequest::GetState, 1);

    let event = received(&orch, 1, out).expect("should receive StateSnapshot");
    match event {
        DaemonEvent::StateSnapshot(state) => {
            assert_eq!(state.prompts.len(), 1);
            assert_eq!(state.max_workers, 3);
        }
        _ => panic!("expected StateSnapshot"),
    }
}

#[test]
fn get_prompt_output_sends_output_text() {
    let mut orch = new_for_test();
    insert_prompt(&mut orch, 1, PromptStatus::Completed);
    orch.prompts[0].output = Some("hello world".into());
        orch.sessions.add_session_with_id(1);

    let out = request(&mut orch, ClientRequest::GetPromptOutput { prompt_id: 1 }, 1);

    let event = received(&orch, 1, out).expect("should receive PromptOutput");
    match event {
        DaemonEvent::PromptOutput {
            prompt_id,
            full_text,
        } => {
            assert_eq!(prompt_id, 1);
            assert_eq!(full_text, "hello world");
        }
        _ => panic!("expected PromptOutput"),
    }
}

#[test]
fn apply_output_chunk_appends_to_prompt() {
    let mut orch = new_for_test();
    insert_prompt(&mut orch, 1, PromptStatus::Running);

    apply(&mut orch, WorkerMessage::OutputChunk {
        prompt_id: 1,
        text: "first ".into(),
    });
    apply(&mut orch, WorkerMessage::OutputChunk {
        prompt_id: 1,
        text: "second".into(),
    });

    let prompt = orch.prompts.iter().find(|p| p.id == 1).unwrap();
    assert_eq!(prompt.output.as_deref(), Some("first second"));
}

#[test]
fn apply_turn_complete_sets_idle() {
    let mut orch = new_for_test();
    insert_prompt(&mut orch, 1, PromptStatus::Running);

    apply(&mut orch, WorkerMessage::TurnComplete { prompt_id: 1 });

    let prompt = orch.prompts.iter().find(|p| p.id == 1).unwrap();
    assert_eq!(prompt.status, PromptStatus::Idle);
}

#[test]
fn apply_session_id_sets_on_prompt() {
    let mut orch = new_for_test();
    insert_prompt(&mut orch, 1, PromptStatus::Running);

    apply(&mut orch, WorkerMessage::SessionId {
        prompt_id: 1,
        session_id: "sess-abc".into(),
    });

    let prompt = orch.prompts.iter().find(|p| p.id == 1).unwrap();
    assert_eq!(prompt.session_id.as_deref(), Some("sess-abc"));
}

#[test]
fn apply_spawn_error_marks_failed_and_decrements_workers() {
    let mut orch = new_for_test();
    insert_prompt(&mut orch, 1, PromptStatus::Running);
    orch.active_workers = 1;

    apply(&mut orch, WorkerMessage::SpawnError {
        prompt_id: 1,
        error: "boom".into(),
    });

    let prompt = orch.prompts.iter().find(|p| p.id == 1).unwrap();
    assert_eq!(prompt.status, PromptStatus::Failed);
    assert_eq!(prompt.error.as_deref(), Some("boom"));
    assert_eq!(orch.active_workers, 0);
}

#[test]
fn send_input_without_worker_input_returns_error() {
    let mut orch = new_for_test();
    insert_prompt(&mut orch, 1, PromptStatus::Running);

        orch.sessions.add_session_with_id(1);

    let out = request(&mut orch, ClientRequest::SendInput { prompt_id: 1, text: "hello".into(), }, 1);
    let event = received(&orch, 1, out).expect("should receive Error");
    assert!(matches!(event, DaemonEvent::Error { .. }));
    let prompt = orch.prompts.iter().find(|p| p.id == 1).unwrap();
    assert!(prompt.output.is_none());
}

#[test]
fn next_pending_skips_worktree_creating() {
    let mut orch = new_for_test();
    insert_prompt(&mut orch, 1, PromptStatus::Pending);
    insert_prompt(&mut orch, 2, PromptStatus::Pending);

    orch.worktree_creating.insert(1);

    let idx = orch.next_pending_prompt_index();
    assert_eq!(idx, Some(1));
    assert_eq!(orch.prompts[idx.unwrap()].id, 2);
}

#[test]
fn next_pending_returns_none_when_all_creating() {
    let mut orch = new_for_test();
    insert_prompt(&mut orch, 1, PromptStatus::Pending);

    orch.worktree_creating.insert(1);

    assert!(orch.next_pending_prompt_index().is_none());
}

#[test]
fn apply_worktree_created_ok_sets_path() {
    let mut orch = new_for_test();
    insert_prompt(&mut orch, 1, PromptStatus::Pending);
    orch.worktree_creating.insert(1);

    apply(&mut orch, WorkerMessage::WorktreeCreated {
        prompt_id: 1,
        result: Ok("/tmp/repo-wt-1".into()),
    });

    assert!(!orch.worktree_creating.contains(&1));
    let prompt = orch.prompts.iter().find(|p| p.id == 1).unwrap();
    assert_eq!(prompt.worktree_path.as_deref(), Some("/tmp/repo-wt-1"));
    assert_eq!(prompt.status, PromptStatus::Pending);
}

#[test]
fn apply_worktree_created_err_marks_failed() {
    let mut orch = new_for_test();
    insert_prompt(&mut orch, 1, PromptStatus::Pending);
    orch.worktree_creating.insert(1);

    apply(&mut orch, WorkerMessage::WorktreeCreated {
        prompt_id: 1,
        result: Err("git failed".into()),
    });

    assert!(!orch.worktree_creating.contains(&1));
    let prompt = orch.prompts.iter().find(|p| p.id == 1).unwrap();
    assert_eq!(prompt.status, PromptStatus::Failed);
    assert!(prompt.error.as_ref().unwrap().contains("worktree"));
}

#[test]
fn apply_message_pty_eof_no_handle_sends_synthetic_finished() {
    let mut orch = new_for_test();
    insert_prompt(&mut orch, 1, PromptStatus::Running);

    let out = apply(&mut orch, WorkerMessage::PtyEof { prompt_id: 1 });
    assert!(out.contains(&Effect::ReportFinished { prompt_id: 1 }));
}

#[test]
fn apply_message_pty_eof_with_a_handle_waits_for_the_child() {
    let mut orch = new_for_test();
    insert_prompt(&mut orch, 1, PromptStatus::Running);
    orch.pty_handles.insert(1, true);

    let out = apply(&mut orch, WorkerMessage::PtyEof { prompt_id: 1 });
    assert!(out.contains(&Effect::AwaitExit { prompt_id: 1 }));
}

#[test]
fn subscribe_sends_pty_replay_for_active_workers() {
    let mut orch = new_for_test();
    insert_prompt(&mut orch, 1, PromptStatus::Running);
    orch.sessions.add_session_with_id(1);

    let out = request(&mut orch, ClientRequest::Subscribe, 1);
    assert!(out.contains(&Effect::ReplayPty { session_id: 1 }));
    let event = received(&orch, 1, out).expect("should receive Subscribed");
    assert!(matches!(event, DaemonEvent::Subscribed));
    assert_eq!(orch.sessions.recipients(), vec![1]);

    let out = request(&mut orch, ClientRequest::Unsubscribe, 1);
    let event = received(&orch, 1, out).expect("should receive Unsubscribed");
    assert!(matches!(event, DaemonEvent::Unsubscribed));
    assert!(orch.sessions.recipients().is_empty());

    let replays = Orchestrator::pty_replays(1, vec![(4, b"hello from pty".to_vec()), (5, vec![])]);
    assert_eq!(
        replays,
        vec![Effect::SendTo {
            session_id: 1,
            event: DaemonEvent::PtyReplay {
                prompt_id: 4,
                data: b"hello from pty".to_vec()
            }
        }]
    );
}

#[test]
fn send_input_with_worker_input_echoes_and_sends() {
    let mut orch = new_for_test();
    insert_prompt(&mut orch, 1, PromptStatus::Running);
    orch.worker_inputs.insert(1);
    orch.sessions.add_session_with_id(1);
    orch.sessions.set_subscribed(1, true);

    let out = request(
        &mut orch,
        ClientRequest::SendInput {
            prompt_id: 1,
            text: "hello".into(),
        },
        1,
    );

    assert!(out.contains(&Effect::Input {
        prompt_id: 1,
        input: WorkerInput::SendInput("hello\n".into())
    }));
    let event = received(&orch, 1, out).expect("should receive OutputChunk");
    assert!(matches!(event, DaemonEvent::OutputChunk { .. }));
}

#[test]
fn add_prompt_prunes_beyond_max_saved() {
    let mut orch = new_for_test();
    orch.prompts_dir = Some("/data/prompts".into());
    orch.max_saved_prompts = 3;
    orch.max_workers = 0;
    let out = add(&mut orch, "test".to_string(), PromptMode::Interactive);
    assert!(out.contains(&Effect::Prune { keep: 3 }));
    assert!(out.iter().any(|e| matches!(e, Effect::Save(p) if p.text == "test")));
}

#[test]
fn moving_up_and_down_again_restores_the_order() {
    let mut orch = new_for_test();
    insert_prompt(&mut orch, 1, PromptStatus::Pending);
    insert_prompt(&mut orch, 2, PromptStatus::Pending);
    request(&mut orch, ClientRequest::MovePromptUp { prompt_id: 2 }, 0);
    let ids: Vec<usize> = orch.prompts.iter().map(|p| p.id).collect();
    assert_eq!(ids, vec![2, 1]);
    request(&mut orch, ClientRequest::MovePromptDown { prompt_id: 2 }, 0);
    let ids: Vec<usize> = orch.prompts.iter().map(|p| p.id).collect();
    assert_eq!(ids, vec![1, 2]);
}

#[test]
fn the_next_pending_prompt_is_started() {
    let mut orch = new_for_test();
    insert_prompt(&mut orch, 1, PromptStatus::Completed);
    insert_prompt(&mut orch, 2, PromptStatus::Pending);
    assert_eq!(orch.dispatch_workers(), DispatchStep::Start { index: 1 });
    let mut out = vec![];
    let spawn = orch.start_worker(1, NOW, &mut out);
    assert_eq!(spawn.prompt_id, 2);
    assert_eq!(spawn.prompt_text, "prompt-2");
    assert_eq!(orch.prompts[1].status, PromptStatus::Running);
    assert_eq!(orch.active_workers, 1);
    orch.worker_spawned(2, SpawnResult::Pty, NOW, &mut out);
    assert!(orch.worker_inputs.contains(&2));
    assert_eq!(orch.dispatch_workers(), DispatchStep::Idle);
}

#[test]
fn no_worker_is_started_beyond_the_limit() {
    let mut orch = new_for_test();
    insert_prompt(&mut orch, 1, PromptStatus::Pending);
    orch.active_workers = orch.max_workers;
    assert_eq!(orch.dispatch_workers(), DispatchStep::Idle);
}

#[test]
fn a_prompt_that_wants_a_worktree_is_checked_first() {
    let mut orch = new_for_test();
    insert_prompt(&mut orch, 1, PromptStatus::Pending);
    orch.prompts[0].worktree = true;
    orch.prompts[0].cwd = Some("/repo".into());
    assert_eq!(
        orch.dispatch_workers(),
        DispatchStep::CheckRepo {
            index: 0,
            cwd: Some("/repo".into())
        }
    );
    let mut out = vec![];
    orch.create_worktree(0, "/repo".into(), &mut out);
    assert!(orch.worktree_creating.contains(&1));
    assert!(out.contains(&Effect::CreateWorktree {
        prompt_id: 1,
        repo: "/repo".into()
    }));
    assert_eq!(orch.dispatch_workers(), DispatchStep::Idle);
}

#[test]
fn a_worker_that_did_not_start_is_reported() {
    let mut orch = new_for_test();
    insert_prompt(&mut orch, 1, PromptStatus::Pending);
    let mut out = vec![];
    orch.start_worker(0, NOW, &mut out);
    orch.worker_spawned(1, SpawnResult::Error("no program".into()), NOW, &mut out);
    assert_eq!(orch.prompts[0].status, PromptStatus::Failed);
    assert_eq!(orch.active_workers, 0);
}

#[test]
fn saved_prompts_come_back_in_their_order() {
    let saved = |uuid: &str, state: &str| SavedPrompt {
        uuid: uuid.to_string(),
        prompt: format!("text {uuid}"),
        context: Some("/w".into()),
        mode: "interactive".into(),
        state: state.to_string(),
        queue_rank: 1_000_000,
        session_id: Some("s".into()),
        worktree: Some(false),
        worktree_path: None,
        tags: vec!["t".into()],
    };
    let mut out = vec![];
    let orch = Orchestrator::new(
        &TomlSettings::default(),
        Some("/data/prompts".into()),
        &vec![saved("a", "completed"), saved("b", "pending"), saved("c", "failed")],
        &mut out,
    );
    let ids: Vec<usize> = orch.prompts.iter().map(|p| p.id).collect();
    assert_eq!(ids, vec![1, 2, 3]);
    assert_eq!(orch.next_id, 4);
    assert_eq!(orch.prompts[0].status, PromptStatus::Completed);
    assert_eq!(orch.prompts[1].text, "text b");
    assert_eq!(orch.prompts[2].session_id.as_deref(), Some("s"));
    assert_eq!(orch.active_workers, 0);
}

#[test]
fn shutting_down_ends_every_worker() {
    let mut orch = new_for_test();
    insert_prompt(&mut orch, 1, PromptStatus::Running);
    orch.worker_inputs.insert(1);
    let mut out = vec![];
    orch.shutdown(&mut out);
    assert!(out.contains(&Effect::Input {
        prompt_id: 1,
        input: WorkerInput::Kill
    }) || out.contains(&Effect::KillChild { prompt_id: 1 }));
}
