//! The command line: what each command reads, asks and prints.

use clhorde::cli::attach::cmd_attach;
use clhorde::cli::config::{
    cmd_config, config_created, config_edit, config_edited, config_init, config_path,
    create_failed, ConfigCommand, EditStart,
};
use clhorde::cli::daemon_client::{
    answer_step, watch_step, AnswerStep, ClientFailure, WatchStep, CONNECT_ERROR, TIMEOUT_ERROR,
};
use clhorde::cli::attach::{attach_event, attach_pty};
use clhorde::cli::flow::{cmd_flow, flow_reply, sibling_binary, FlowRun, SCHEDULER_BINARY};
use clhorde::cli::keys_command::{cmd_keys, keys_list, keys_reset, keys_set, KeysCommand};
use clhorde::cli::qp::{cmd_qp, qp_add, qp_list, qp_remove, QpCommand};
use clhorde::cli::reply::{
    can_clip, clip, daemon_error, no_answer, table_row, unexpected_answer, Reply,
};
use clhorde::cli::run::{run, HELP};
use clhorde::cli::status::{cmd_status, format_status, status_reply};
use clhorde::cli::store::{
    cmd_store, format_counts, store_drop, store_keep, store_reply, store_request, StoreCommand,
};
use clhorde::cli::submit::{cmd_submit, parse_submit, submit_event};
use clhorde::ipc::{encode_frame, encode_pty_frame, next_incoming};
use clhorde::keymap::{KeyBindings, KeyCode, TomlConfig};
use clhorde::actions::{Keymap, NormalAction};
use clhorde::protocol::{ClientRequest, DaemonEvent, DaemonState, PromptInfo, PROTOCOL_VERSION};

fn words(ws: &[&str]) -> Vec<String> {
    ws.iter().map(|w| w.to_string()).collect()
}

fn info(id: usize, text: &str, status: &str) -> PromptInfo {
    PromptInfo {
        id,
        text: text.to_string(),
        cwd: None,
        mode: "interactive".to_string(),
        status: status.to_string(),
        output: None,
        error: None,
        worktree: false,
        worktree_path: None,
        session_id: None,
        tags: vec![],
        queue_rank: 1_000_000,
        seen: true,
        resume: false,
        output_len: 0,
        elapsed_ms: None,
        uuid: "u".to_string(),
        has_pty: false,
    }
}

fn state(prompts: Vec<PromptInfo>) -> DaemonState {
    DaemonState {
        prompts,
        max_workers: 3,
        active_workers: 1,
        default_mode: "interactive".to_string(),
        protocol_version: PROTOCOL_VERSION,
    }
}

fn keymap() -> Keymap {
    let mut normal = KeyBindings::new();
    normal.insert(KeyCode::Char('q'), NormalAction::Quit);
    normal.insert(KeyCode::Esc, NormalAction::Quit);
    normal.insert(KeyCode::Char('i'), NormalAction::Insert);
    Keymap {
        normal,
        insert: KeyBindings::new(),
        view: KeyBindings::new(),
        interact: KeyBindings::new(),
        filter: KeyBindings::new(),
    }
}

#[test]
fn run_help_variants() {
    assert_eq!(run(&["clhorde-cli".into(), "help".into()]).code(), Some(0));
    assert_eq!(run(&["clhorde-cli".into(), "--help".into()]).code(), Some(0));
    assert_eq!(run(&["clhorde-cli".into(), "-h".into()]).code(), Some(0));
}

#[test]
fn run_dispatches_subcommands() {
    assert_eq!(run(&["clhorde-cli".into(), "store".into()]).code(), Some(1));
    assert_eq!(run(&["clhorde-cli".into(), "keys".into()]).code(), Some(1));
    assert_eq!(run(&["clhorde-cli".into(), "config".into()]).code(), Some(1));
    assert_eq!(run(&["clhorde-cli".into(), "qp".into()]).code(), Some(1));
}

#[test]
fn run_unknown_shows_help() {
    assert_eq!(run(&["clhorde-cli".into(), "bogus".into()]).code(), Some(1));
}

#[test]
fn run_no_args_shows_help() {
    assert_eq!(run(&["clhorde-cli".into()]).code(), Some(1));
}

#[test]
fn a_command_that_has_work_to_do_has_no_code_yet() {
    assert_eq!(run(&words(&["clhorde-cli", "store", "list"])).code(), None);
    assert_eq!(run(&words(&["clhorde-cli", "qp", "list"])).code(), None);
    assert_eq!(run(&words(&["clhorde-cli", "keys", "list"])).code(), None);
    assert_eq!(run(&words(&["clhorde-cli", "config", "path"])).code(), None);
    assert_eq!(run(&words(&["clhorde-cli", "submit", "hello"])).code(), None);
    assert_eq!(run(&words(&["clhorde-cli", "submit"])).code(), Some(1));
    assert_eq!(run(&words(&["clhorde-cli", "status"])).code(), None);
    assert_eq!(run(&words(&["clhorde-cli", "attach", "3"])).code(), None);
    assert_eq!(run(&words(&["clhorde-cli", "attach"])).code(), Some(1));
    assert_eq!(run(&words(&["clhorde-cli", "flow", "status"])).code(), None);
    assert!(HELP.starts_with("clhorde-cli 0.1.0\n"));
}

#[test]
fn attach_no_args_returns_error() {
    assert_eq!(cmd_attach(&[]).unwrap_err().code, 1);
}

#[test]
fn attach_non_numeric_returns_error() {
    assert_eq!(cmd_attach(&["abc".into()]).unwrap_err().code, 1);
}

#[test]
fn attach_subscribes_and_asks_for_the_state() {
    let a = cmd_attach(&words(&["7"])).unwrap();
    assert_eq!(a.id, 7);
    assert_eq!(
        a.requests,
        vec![ClientRequest::Subscribe, ClientRequest::GetState]
    );
    let missing = attach_event(7, &DaemonEvent::StateSnapshot(state(vec![])));
    assert!(missing.failed && !missing.go_on);
    assert_eq!(missing.err, "Prompt #7 not found.\n");
    let running = state(vec![info(7, "t", "Running")]);
    assert!(attach_event(7, &DaemonEvent::StateSnapshot(running)).go_on);
    let mut done = info(7, "t", "Completed");
    done.output = Some("all of it".into());
    let step = attach_event(7, &DaemonEvent::StateSnapshot(state(vec![done])));
    assert_eq!(step.out, "all of it");
    assert!(!step.go_on);
}

#[test]
fn attached_output_is_printed_until_the_worker_ends() {
    let chunk = DaemonEvent::OutputChunk {
        prompt_id: 7,
        text: "hi".into(),
    };
    let step = attach_event(7, &chunk);
    assert_eq!(step.out, "hi");
    assert!(step.go_on && !step.failed);
    let other = attach_event(8, &chunk);
    assert_eq!(other.out, "");
    assert!(other.go_on);
    let done = attach_event(
        7,
        &DaemonEvent::WorkerFinished {
            prompt_id: 7,
            exit_code: Some(0),
        },
    );
    assert!(!done.go_on);
    let failed = attach_event(
        7,
        &DaemonEvent::WorkerError {
            prompt_id: 7,
            error: "boom".into(),
        },
    );
    assert!(failed.failed);
    assert!(failed.err.contains("boom"));
    assert!(attach_pty(7, 7));
    assert!(!attach_pty(7, 8));
}

#[test]
fn status_with_args_returns_error() {
    assert_eq!(cmd_status(&["extra".into()]).unwrap_err().code, 1);
}

#[test]
fn status_asks_for_the_state_and_prints_it() {
    assert_eq!(cmd_status(&[]), Ok(ClientRequest::GetState));
    let text = format_status(&state(vec![info(1, "fix the bug", "pending")]));
    assert!(text.contains("fix the bug"));
    assert!(text.contains("pending"));
    let reply = status_reply(&Ok(DaemonEvent::StateSnapshot(state(vec![]))));
    assert_eq!(reply.code, 0);
    assert_eq!(status_reply(&Ok(DaemonEvent::Pong)).code, 1);
    let lost = status_reply(&Err("gone".into()));
    assert_eq!(lost.code, 1);
    assert!(lost.err.contains("gone"));
}

#[test]
fn store_subcommand_no_args_returns_error() {
    assert_eq!(cmd_store(&[]).unwrap_err().code, 1);
}

#[test]
fn store_drop_no_filter_returns_error() {
    assert_eq!(store_drop(None).unwrap_err().code, 1);
}

#[test]
fn store_drop_invalid_filter_returns_error() {
    assert_eq!(store_drop(Some("bogus")).unwrap_err().code, 1);
}

#[test]
fn store_keep_no_filter_returns_error() {
    assert_eq!(store_keep(None).unwrap_err().code, 1);
}

#[test]
fn store_keep_invalid_filter_returns_error() {
    assert_eq!(store_keep(Some("bogus")).unwrap_err().code, 1);
}

#[test]
fn store_keep_all_not_valid() {
    assert_eq!(store_keep(Some("all")).unwrap_err().code, 1);
    assert_eq!(
        store_drop(Some("all")),
        Ok(StoreCommand::Drop {
            filter: "all".into()
        })
    );
}

#[test]
fn store_commands_become_requests() {
    assert_eq!(store_request(&StoreCommand::List), ClientRequest::StoreList);
    assert_eq!(store_request(&StoreCommand::Count), ClientRequest::StoreCount);
    assert_eq!(store_request(&StoreCommand::Path), ClientRequest::StorePath);
    assert_eq!(
        store_request(&cmd_store(&words(&["keep", "failed"])).unwrap()),
        ClientRequest::StoreKeep {
            filter: "failed".into()
        }
    );
    assert_eq!(
        store_request(&cmd_store(&words(&["clean-worktrees"])).unwrap()),
        ClientRequest::CleanWorktrees
    );
}

#[test]
fn store_answers_are_printed() {
    let counts = store_reply(
        &StoreCommand::Count,
        &Ok(DaemonEvent::StoreCountResult {
            pending: 1,
            running: 2,
            completed: 3,
            failed: 4,
        }),
    );
    assert_eq!(counts.code, 0);
    assert_eq!(counts.out, format_counts(1, 2, 3, 4));
    assert!(counts.out.contains("10"));
    let path = store_reply(
        &StoreCommand::Path,
        &Ok(DaemonEvent::StorePathResult {
            path: "/data/prompts".into(),
        }),
    );
    assert_eq!(path.out, "/data/prompts\n");
    let list = store_reply(
        &StoreCommand::List,
        &Ok(DaemonEvent::StoreListResult {
            prompts: vec![info(3, "hello", "completed")],
        }),
    );
    assert!(list.out.contains("hello") && list.out.contains("completed"));
    let failed = store_reply(
        &StoreCommand::List,
        &Ok(DaemonEvent::Error {
            message: "nope".into(),
        }),
    );
    assert_eq!(failed.code, 1);
    assert!(failed.err.contains("nope"));
}

#[test]
fn submit_no_args_returns_error() {
    assert_eq!(cmd_submit(&[]).unwrap_err().code, 1);
}

#[test]
fn submit_invalid_mode_returns_error() {
    assert_eq!(
        cmd_submit(&["hello".into(), "--mode".into(), "bogus".into(),])
            .unwrap_err()
            .code,
        1
    );
}

#[test]
fn submit_mode_missing_value_returns_error() {
    assert_eq!(
        cmd_submit(&["hello".into(), "--mode".into()])
            .unwrap_err()
            .code,
        1
    );
}

#[test]
fn submit_cwd_missing_value_returns_error() {
    assert_eq!(
        cmd_submit(&["hello".into(), "--cwd".into()])
            .unwrap_err()
            .code,
        1
    );
}

#[test]
fn submit_sends_the_prompt() {
    let args = words(&["hello", "--mode", "one-shot", "--cwd", "/w", "--worktree"]);
    let parsed = parse_submit(&args).unwrap();
    assert_eq!(parsed.text.as_deref(), Some("hello"));
    assert_eq!(parsed.cwd.as_deref(), Some("/w"));
    assert!(parsed.worktree);
    let requests = cmd_submit(&args).unwrap();
    assert!(requests.iter().any(|r| matches!(
        r,
        ClientRequest::SubmitPrompt { text, cwd, worktree: true, .. }
            if text == "hello" && cwd.as_deref() == Some("/w")
    )));
    let added = submit_event(&DaemonEvent::PromptAdded(info(9, "hello", "pending"))).unwrap();
    assert_eq!(added.code, 0);
    assert!(added.out.contains('9'));
    assert_eq!(submit_event(&DaemonEvent::Pong), None);
    let refused = submit_event(&DaemonEvent::Error {
        message: "full".into(),
    })
    .unwrap();
    assert_eq!(refused.code, 1);
}

#[test]
fn flow_hands_its_arguments_on_unchanged() {
    let call = cmd_flow(
        &words(&["status", "add-oauth", "--root", "/tmp/x"]),
        sibling_binary(&Some("/opt/bin".into())),
        true,
    );
    assert_eq!(call.binary, "/opt/bin/clhorde-scheduler");
    assert_eq!(call.args, words(&["status", "add-oauth", "--root", "/tmp/x"]));
    let fallback = cmd_flow(&words(&["status"]), sibling_binary(&None), false);
    assert_eq!(fallback.binary, SCHEDULER_BINARY);
    let missing = cmd_flow(
        &words(&["status"]),
        sibling_binary(&Some("/opt/bin".into())),
        false,
    );
    assert_eq!(missing.binary, SCHEDULER_BINARY);
}

#[test]
fn flow_exits_as_the_scheduler_did() {
    assert_eq!(flow_reply("s", &FlowRun::Exited(Some(0))).code, 0);
    assert_eq!(flow_reply("s", &FlowRun::Exited(Some(7))).code, 7);
    assert_eq!(flow_reply("s", &FlowRun::Exited(None)).code, 1);
    let r = flow_reply("s", &FlowRun::NotStarted("no such file".into()));
    assert_eq!(r.code, 1);
    assert!(r.err.contains("no such file"));
}

#[test]
fn config_commands() {
    assert_eq!(cmd_config(&words(&["path"])), Ok(ConfigCommand::Path));
    assert_eq!(cmd_config(&words(&["edit"])), Ok(ConfigCommand::Edit));
    assert_eq!(
        cmd_config(&words(&["init", "--force"])),
        Ok(ConfigCommand::Init { force: true })
    );
    assert_eq!(
        cmd_config(&words(&["init"])),
        Ok(ConfigCommand::Init { force: false })
    );
    assert_eq!(cmd_config(&words(&["bogus"])).unwrap_err().code, 1);
    assert_eq!(config_path(&Some("/c/keymap.toml".into())).out, "/c/keymap.toml\n");
    assert_eq!(config_path(&None).code, 1);
}

#[test]
fn an_existing_config_is_kept_unless_forced() {
    let path = Some("/c/keymap.toml".to_string());
    assert_eq!(config_init(&path, false, false), Ok("/c/keymap.toml".into()));
    assert_eq!(config_init(&path, true, true), Ok("/c/keymap.toml".into()));
    assert_eq!(config_init(&path, true, false).unwrap_err().code, 1);
    assert_eq!(config_init(&None, false, false).unwrap_err().code, 1);
    assert_eq!(config_created("/c/k", &Ok(())).code, 0);
    assert_eq!(config_created("/c/k", &Err("denied".into())).code, 1);
    assert_eq!(
        config_edit(&path, false),
        Ok(EditStart {
            path: "/c/keymap.toml".into(),
            create: true
        })
    );
    assert!(!config_edit(&path, true).unwrap().create);
    assert_eq!(create_failed("denied").code, 1);
    assert_eq!(config_edited("vi", &Ok(true)).code, 0);
    assert_eq!(config_edited("vi", &Ok(false)).code, 1);
    assert_eq!(config_edited("vi", &Err("no vi".into())).code, 1);
}

#[test]
fn keys_are_listed_set_and_reset() {
    assert_eq!(
        cmd_keys(&words(&["list", "normal"])),
        Ok(KeysCommand::List {
            mode: Some("normal".into())
        })
    );
    let all = keys_list(None, &keymap());
    assert_eq!(all.code, 0);
    assert!(all.out.contains("quit"));
    assert!(all.out.find("\ninsert = ") < all.out.find("\nquit = "));
    assert_eq!(keys_list(Some("bogus"), &keymap()).code, 1);
    let mut config = TomlConfig::default();
    assert_eq!(keys_set(&words(&["normal", "quit", "Q"]), &mut config).code, 0);
    assert_eq!(config.normal.as_ref().unwrap().quit, Some(words(&["Q"])));
    let before = TomlConfig::default();
    let mut same = TomlConfig::default();
    assert_eq!(
        keys_set(&words(&["normal", "quit", "Ctrl+A"]), &mut same).code,
        1
    );
    assert_eq!(same, before);
    assert_eq!(keys_set(&words(&["normal"]), &mut same).code, 1);
    assert_eq!(keys_reset(&words(&["normal", "quit"]), &mut config).code, 0);
    assert_eq!(config.normal.as_ref().unwrap().quit, None);
    assert_eq!(keys_reset(&[], &mut config).code, 1);
}

#[test]
fn a_quick_prompt_is_read_back_and_can_be_removed() {
    assert_eq!(cmd_qp(&words(&["list"])), Ok(QpCommand::List));
    let mut config = TomlConfig::default();
    assert_eq!(
        qp_add(&words(&["g", "let's", "go"]), &mut config).code,
        0
    );
    assert_eq!(
        config.quick_prompts,
        Some(vec![("g".to_string(), "let's go".to_string())])
    );
    assert!(qp_list(&config).out.contains("let's go"));
    assert_eq!(qp_add(&words(&["Ctrl+A", "x"]), &mut config).code, 1);
    assert_eq!(qp_add(&words(&["g"]), &mut config).code, 1);
    assert_eq!(qp_remove(&words(&["z"]), &mut config).code, 1);
    assert_eq!(qp_remove(&words(&["g"]), &mut config).code, 0);
    assert!(!qp_list(&config).out.contains("let's go"));
}

#[test]
fn long_text_is_clipped_to_a_row() {
    assert!(can_clip("short"));
    assert_eq!(clip("short"), "short");
    let long = "x".repeat(100);
    let clipped = clip(&long);
    assert!(clipped.chars().count() < 100);
    assert!(clipped.ends_with("..."));
    assert_eq!(table_row("a", 3, "b", 2, "c", "d"), "a   b  c             d\n");
}

#[test]
fn replies() {
    assert_eq!(Reply::success("out".into()).code, 0);
    assert_eq!(Reply::failure("err".into()).code, 1);
    assert!(daemon_error("bad").err.contains("bad"));
    assert_eq!(unexpected_answer().code, 1);
    assert_eq!(no_answer("lost").code, 1);
}

#[test]
fn answers_come_as_frames() {
    let json = encode_frame(b"\"Pong\"");
    assert_eq!(
        answer_step(next_incoming(&json)),
        AnswerStep::Answer {
            payload: b"\"Pong\"".to_vec()
        }
    );
    assert_eq!(answer_step(next_incoming(&vec![0, 0])), AnswerStep::ReadMore);
    let pty = encode_frame(&encode_pty_frame(5, &vec![9, 8]));
    assert_eq!(
        answer_step(next_incoming(&pty)),
        AnswerStep::Skip { used: pty.len() }
    );
    assert_eq!(
        watch_step(next_incoming(&pty)),
        WatchStep::Pty {
            prompt_id: 5,
            data: vec![9, 8],
            used: pty.len()
        }
    );
    let huge = vec![0xff, 0xff, 0xff, 0xff];
    assert!(matches!(
        answer_step(next_incoming(&huge)),
        AnswerStep::Fail { .. }
    ));
    assert_eq!(watch_step(next_incoming(&huge)), WatchStep::Stop);
    assert!(CONNECT_ERROR.contains("clhorded"));
    assert!(TIMEOUT_ERROR.contains("Timeout"));
    assert!(ClientFailure::Write.message("e").contains("e"));
}

#[test]
fn actions_are_listed_by_name() {
    let listed = clhorde::actions::invert_map(
        &clhorde::keymap::KeyBindings::new(),
        &vec![
            (clhorde::actions::NormalAction::Quit, "quit"),
            (clhorde::actions::NormalAction::Insert, "insert"),
        ],
    );
    assert_eq!(
        listed,
        vec![("insert".to_string(), vec![]), ("quit".to_string(), vec![])]
    );
}
