//! The scheduler's commands.

use clhorde::openspec::dag::DagNode;
use clhorde::openspec::discovery::{ChangeStatus, DiscoveredChange, MarkerMetadata};
use clhorde::protocol::ClientRequest;
use clhorde::scheduler::cli::{NameArg, ProposeArgs, QueueArgs, RetryArgs, StatusArgs};
use clhorde::scheduler::commands::{
    archive, archive_prompt, build_phase_request, cancel, change_dir, drafts, iso_or_dash, marker_path,
    is_tame, pick_editor, propose_prompt, proposed_idea, propose, queue, relative_time, render_apply_template,
    render_prompt, resolve_root, retry, retry_node, retry_start, status, template_of,
    templates_edit, templates_path, unqueue, CommandError, EditorRun, Removal, APPLY_SECTION,
};
use clhorde::scheduler::workflow::{Timestamp, Workflow, WorkflowStatus};

const NOW: Timestamp = Timestamp {
    secs: 1_750_000_000,
    nanos: 0,
};

fn name(n: &str) -> NameArg {
    NameArg { name: n.to_string() }
}

fn change(n: &str, queued: bool) -> DiscoveredChange {
    DiscoveredChange {
        name: n.to_string(),
        path: format!("/repo/openspec/changes/{n}"),
        status: if queued {
            ChangeStatus::Queued(MarkerMetadata::default())
        } else {
            ChangeStatus::Drafted
        },
    }
}

fn node(template: Option<&str>) -> DagNode {
    DagNode {
        id: "1".into(),
        label: "Foo".into(),
        deps: Vec::new(),
        parallel_with: Vec::new(),
        prompt_template: template.map(|t| t.to_string()),
        source_line: 1,
    }
}

#[test]
fn queue_writes_marker_with_priority() {
    let out = queue(
        &QueueArgs {
            name: "add-oauth".into(),
            priority: Some(7),
            root: Some("/repo".into()),
        },
        "/repo",
        true,
    )
    .unwrap();
    assert!(out.output.stdout.contains("queued: add-oauth"));
    assert_eq!(out.path, "/repo/openspec/changes/add-oauth/.clhorde-ready");
    assert_eq!(out.body, "priority = 7\n");
}

#[test]
fn queue_writes_empty_marker_without_priority() {
    let out = queue(
        &QueueArgs {
            name: "x".into(),
            priority: None,
            root: Some("/repo".into()),
        },
        "/repo",
        true,
    )
    .unwrap();
    assert_eq!(out.path, "/repo/openspec/changes/x/.clhorde-ready");
    assert_eq!(out.body, "");
}

#[test]
fn queue_rejects_missing_change_dir() {
    let err = queue(
        &QueueArgs {
            name: "ghost".into(),
            priority: None,
            root: Some("/repo".into()),
        },
        "/repo",
        false,
    )
    .unwrap_err();
    assert!(matches!(err, CommandError::NoSuchChange(n) if n == "ghost"));
}

#[test]
fn unqueue_removes_marker() {
    let out = unqueue(&name("x"), &Removal::Removed).unwrap();
    assert!(out.stdout.contains("x"));
}

#[test]
fn unqueue_missing_marker_is_ok() {
    let out = unqueue(&name("x"), &Removal::NotFound).unwrap();
    assert!(out.stdout.contains("already removed"));
}

#[test]
fn unqueue_reports_what_failed() {
    let err = unqueue(&name("x"), &Removal::Failed("denied".into())).unwrap_err();
    assert!(err.to_text().contains("denied"));
}

#[test]
fn drafts_lists_only_unqueued_changes() {
    let out = drafts(&vec![
        change("draft-a", false),
        change("draft-b", false),
        change("queued-x", true),
    ]);
    let lines: Vec<&str> = out.stdout.lines().collect();
    assert_eq!(lines, vec!["draft-a", "draft-b"]);
}

#[test]
fn drafts_handles_empty_repo() {
    let out = drafts(&vec![]);
    assert!(out.stdout.is_empty());
}

#[test]
fn status_lists_all_workflows_when_no_name_given() {
    let alpha = Workflow::drafted("alpha");
    let mut zeta = Workflow::drafted("zeta");
    zeta.queue(MarkerMetadata::default()).unwrap();

    let out = status(&StatusArgs { name: None }, &vec![alpha, zeta], NOW).unwrap();
    assert!(out.stdout.contains("alpha: drafted"));
    assert!(out.stdout.contains("zeta: queued"));
    assert!(out.stdout.find("alpha").unwrap() < out.stdout.find("zeta").unwrap());
}

#[test]
fn status_for_specific_workflow_dumps_detail() {
    let mut wf = Workflow::drafted("add-oauth");
    wf.metadata.priority = Some(7);
    wf.metadata.depends_on = vec!["base".into()];
    wf.queue(wf.metadata.clone()).unwrap();

    let out = status(
        &StatusArgs {
            name: Some("add-oauth".into()),
        },
        &vec![wf],
        NOW,
    )
    .unwrap();
    assert!(out.stdout.contains("name: add-oauth"));
    assert!(out.stdout.contains("status: queued"));
    assert!(out.stdout.contains("priority: 7"));
    assert!(out.stdout.contains("depends_on: base"));
}

#[test]
fn status_for_missing_workflow_is_error() {
    let err = status(
        &StatusArgs {
            name: Some("ghost".into()),
        },
        &vec![],
        NOW,
    )
    .unwrap_err();
    assert!(matches!(err, CommandError::NoSuchWorkflow(_)));
}

#[test]
fn status_with_empty_store_is_friendly() {
    let out = status(&StatusArgs { name: None }, &vec![], NOW).unwrap();
    assert!(out.stdout.contains("(no workflows"));
}

#[test]
fn templates_path_prints_a_path() {
    let out = templates_path(clhorde::config::config_file(
        None,
        &Some("/home/user".to_string()),
        "scheduler/templates",
    ))
    .unwrap();
    assert_eq!(out.stdout, "/home/user/.config/clhorde/scheduler/templates\n");
    assert!(out.stdout.contains("clhorde"));
    assert!(out.stdout.contains("templates"));
    assert!(templates_path(None).is_err());
}

#[test]
fn snippets_lie_in_the_configuration_directory() {
    let home = Some("/home/user".to_string());
    assert_eq!(
        clhorde::config::templates_path(None, &home),
        Some("/home/user/.config/clhorde/templates.toml".to_string())
    );
    assert_eq!(
        clhorde::config::templates_path(Some("/etc/xdg".to_string()), &home),
        Some("/etc/xdg/clhorde/templates.toml".to_string())
    );
    assert_eq!(clhorde::config::templates_path(None, &None), None);
}

#[test]
fn templates_edit_with_explicit_editor_runs() {
    let editor = pick_editor(Some("true".into()), None, None);
    let out = templates_edit("/home/user/templates", &editor, &EditorRun::Success).unwrap();
    assert!(out.stdout.contains("edited templates"));
}

#[test]
fn templates_edit_propagates_editor_failure() {
    let editor = pick_editor(Some("false".into()), None, None);
    let err = templates_edit(
        "/home/user/templates",
        &editor,
        &EditorRun::Exited("exit status: 1".into()),
    )
    .unwrap_err();
    assert!(matches!(err, CommandError::Other(_)));
    let err = templates_edit("/t", &editor, &EditorRun::NotStarted("gone".into())).unwrap_err();
    assert!(err.to_text().contains("gone"));
}

#[test]
fn the_editor_is_the_first_one_given() {
    let some = |s: &str| Some(s.to_string());
    assert_eq!(pick_editor(some("a"), some("b"), some("c")), "a");
    assert_eq!(pick_editor(None, some("b"), some("c")), "b");
    assert_eq!(pick_editor(None, None, some("c")), "c");
    assert_eq!(pick_editor(None, None, None), "vi");
}

#[test]
fn cancel_removes_marker_and_updates_workflow() {
    let mut wf = Workflow::drafted("x");
    wf.queue(MarkerMetadata::default()).unwrap();
    wf.start_implementing().unwrap();

    let out = cancel(&name("x"), Some(wf));
    assert!(out.output.stdout.contains("cancelled"));
    assert_eq!(out.save.unwrap().status, WorkflowStatus::Cancelled);
}

#[test]
fn cancel_no_marker_no_workflow_is_idempotent() {
    let out = cancel(&name("ghost"), None);
    assert!(out.output.stdout.contains("ghost"));
    assert!(out.save.is_none());
}

#[test]
fn cancel_queued_returns_to_drafted() {
    let mut wf = Workflow::drafted("x");
    wf.queue(MarkerMetadata::default()).unwrap();

    let out = cancel(&name("x"), Some(wf));
    assert_eq!(out.save.unwrap().status, WorkflowStatus::Drafted);
}

#[test]
fn build_phase_request_archive_shape() {
    let req = build_phase_request("/repo", "add-oauth", "archive", "render".into());
    match req {
        ClientRequest::SubmitPrompt {
            text,
            tags,
            worktree,
            worktree_id,
            cwd,
            mode,
            ..
        } => {
            assert_eq!(text, "render");
            assert_eq!(
                tags,
                vec!["clhorde-scheduler/wf=add-oauth/phase=archive".to_string()]
            );
            assert!(worktree);
            assert_eq!(worktree_id.as_deref(), Some("add-oauth"));
            assert_eq!(cwd.as_deref(), Some("/repo"));
            assert_eq!(mode, "oneshot");
        }
        _ => panic!("expected SubmitPrompt"),
    }
}

#[test]
fn render_apply_template_uses_node_override() {
    let template = "Apply the OpenSpec change `{{ change_name }}`, section {{ section_id }} ({{ section_title }}):\n{{ tasks_block }}\n";
    let out = render_apply_template(template, "/repo", "add-oauth", &node(None), "- [ ] 1.1 q")
        .unwrap();
    assert!(out.contains("OpenSpec change `add-oauth`"));
    assert!(out.contains("section 1 (Foo)"));
    assert!(out.contains("- [ ] 1.1 q"));
    assert_eq!(template_of(&node(None)), APPLY_SECTION);
    assert_eq!(template_of(&node(Some("custom"))), "custom");
}

#[test]
fn a_template_renders_its_variables() {
    let vars = vec![
        ("name".to_string(), "add-oauth".to_string()),
        ("root".to_string(), "/repo".to_string()),
    ];
    assert_eq!(
        render_prompt("archive {{ name }} in {{ root }}", &vars),
        Ok("archive add-oauth in /repo".to_string())
    );
    assert_eq!(
        render_prompt("{{ name }} & <b>", &vec![("name".into(), "<i>".into())]),
        Ok("<i> & <b>".to_string())
    );
    assert!(matches!(
        render_prompt("{{ missing }}", &vars),
        Err(CommandError::Render(_))
    ));
}

#[test]
fn a_tame_template_is_told_from_others() {
    for template in [
        "",
        "plain text, with { and } and (1 + 2) * 3",
        "{{ name }}",
        "{{- name -}}",
        "{{ name | upper }}",
        "{{ section.title }}",
        "{{ 1.5 }}",
        "{% if name == \"fast\" %}yes{% endif %}",
        "{% if name | length > 3 %}yes{% endif %}",
        "{% set other = name %}{{ other }}",
        "{% if name %}yes{% else %}no{% endif %}",
        "{%- if not name -%}{%- endif -%}",
    ] {
        assert!(is_tame(template), "{template}");
    }
    for template in [
        "{{ name",
        "{{ get_env(name=\"HOME\") }}",
        "{{ 1 + 2 }}",
        "{{ \"unclosed }}",
        "{{ name | int | abs }}",
        "{{ name | addslashes }}",
        "{% for c in name %}{{ c }}{% endfor %}",
        "{% block a %}{% endblock %}",
        "{% include \"other\" %}",
        "{{ -name }}",
        "{{{ name }}",
    ] {
        assert!(!is_tame(template), "{template}");
    }
    let nested = |n: usize| "{% if a %}".repeat(n) + &"{% endif %}".repeat(n);
    assert!(is_tame(&nested(16)));
    assert!(!is_tame(&nested(17)));
    assert!(is_tame(&format!("{{{{{}}}}}", "a".repeat(120))));
    assert!(!is_tame(&format!("{{{{{}}}}}", "a".repeat(121))));
}

#[test]
fn a_template_decides_and_filters() {
    let vars = vec![
        ("name".to_string(), "add-oauth".to_string()),
        ("empty".to_string(), String::new()),
    ];
    assert_eq!(
        render_prompt("{% if name %}{{ name | upper }}{% else %}none{% endif %}", &vars),
        Ok("ADD-OAUTH".to_string())
    );
    assert_eq!(
        render_prompt("{% if empty %}{{ name }}{% else %}none{% endif %}", &vars),
        Ok("none".to_string())
    );
    assert_eq!(
        render_prompt("{% if name == \"add-oauth\" %}same{% endif %}", &vars),
        Ok("same".to_string())
    );
    let nested = "{% if name %}".repeat(16) + "deep" + &"{% endif %}".repeat(16);
    assert_eq!(render_prompt(&nested, &vars), Ok("deep".to_string()));
    assert_eq!(
        render_prompt("a  {{- name -}}  b", &vars),
        Ok("aadd-oauthb".to_string())
    );
}

#[test]
fn archive_and_propose_have_their_variables() {
    assert_eq!(
        archive_prompt("archive {{ change_name }}", "add-oauth"),
        Ok("archive add-oauth".to_string())
    );
    assert!(archive_prompt("{{ idea }}", "add-oauth").is_err());
    assert_eq!(
        propose_prompt("propose {{ idea }}", "dark mode"),
        Ok("propose dark mode".to_string())
    );
    assert!(propose_prompt("{{ change_name }}", "dark mode").is_err());
}

#[test]
fn archive_and_propose_build_requests() {
    let (req, out) = archive(&name("add-oauth"), "/repo", "go".into());
    assert!(matches!(req, ClientRequest::SubmitPrompt { text, .. } if text == "go"));
    assert!(out.stdout.contains("add-oauth"));
    let idea = proposed_idea(&ProposeArgs {
        idea: vec!["add".into(), "login".into()],
        root: None,
    })
    .unwrap();
    assert_eq!(idea, "add login");
    let (req, _) = propose("/repo", &idea, "go".into());
    assert!(matches!(req, ClientRequest::SubmitPrompt { .. }));
    assert!(proposed_idea(&ProposeArgs {
        idea: vec!["  ".into()],
        root: None
    })
    .is_err());
}

#[test]
fn a_failed_section_is_retried() {
    let args = RetryArgs {
        name: "x".into(),
        section: Some("1".into()),
    };
    assert!(matches!(
        retry_start(&args, None),
        Err(CommandError::NoSuchWorkflow(n)) if n == "x"
    ));
    let mut wf = Workflow::drafted("x");
    wf.queue(MarkerMetadata::default()).unwrap();
    wf.start_implementing().unwrap();
    wf.fail("boom").unwrap();
    let start = retry_start(&args, Some(wf)).unwrap();
    assert_eq!(start.section, "1");
    let found = retry_node("## 1. Foo\n\n- [ ] 1.1 q\n", "1").unwrap();
    assert_eq!(found.node.label, "Foo");
    assert!(found.tasks_block.contains("- [ ] 1.1 q"));
    assert!(retry_node("## 1. Foo\n\n- [ ] 1.1 q\n", "9").is_err());
    let (req, out) = retry(&args, "1", "/repo", &found.node, "go".into());
    assert!(matches!(req, ClientRequest::SubmitPrompt { .. }));
    assert!(out.stdout.contains("x"));
}

#[test]
fn paths_of_a_change() {
    assert_eq!(change_dir("/repo", "x"), "/repo/openspec/changes/x");
    assert_eq!(
        marker_path("/repo", "x"),
        "/repo/openspec/changes/x/.clhorde-ready"
    );
    assert_eq!(resolve_root(Some("/a".into()), Err("no".into())), Ok("/a".into()));
    assert_eq!(resolve_root(None, Ok("/b".into())), Ok("/b".into()));
    assert!(matches!(
        resolve_root(None, Err("no".into())),
        Err(CommandError::Io(_))
    ));
}

#[test]
fn times_are_printed() {
    assert_eq!(iso_or_dash(None), "-");
    assert_eq!(iso_or_dash(Some(NOW)), "2025-06-15T15:06:40+00:00");
    let at = |secs: i64| Timestamp { secs, nanos: 0 };
    assert_eq!(relative_time(at(NOW.secs - 5), NOW), "5s ago");
    assert_eq!(relative_time(at(NOW.secs - 120), NOW), "2m ago");
    assert_eq!(relative_time(at(NOW.secs - 7200), NOW), "2h ago");
    assert_eq!(relative_time(at(NOW.secs - 172_800), NOW), "2d ago");
}

#[test]
fn every_command_error_has_a_text() {
    let errors = vec![
        CommandError::Io("a".into()),
        CommandError::Store("b".into()),
        CommandError::NoSuchChange("c".into()),
        CommandError::NoSuchWorkflow("d".into()),
        CommandError::BadState { name: "e".into(), what: "f".into() },
        CommandError::Daemon("g".into()),
        CommandError::Render("h".into()),
        CommandError::Other("i".into()),
    ];
    let letters = ["a", "b", "c", "d", "e", "g", "h", "i"];
    for (e, l) in errors.iter().zip(letters) {
        assert!(e.to_text().contains(l));
    }
}
