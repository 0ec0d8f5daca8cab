//! The configuration of the ticket source.

use clhorde::jira::config::{build, build_partial, validate_jira_config, JiraConfigError};
use clhorde::jira::source::{
    DEFAULT_MAX_CONCURRENT_EXPLORE, DEFAULT_POLL_INTERVAL, MIN_POLL_INTERVAL,
};
use clhorde::jira::writeback::{LifecyclePhase, DEFAULT_TRIGGER_LABEL};
use clhorde::keymap::{
    TomlConfig, TomlNamedQueue, TomlSources, TomlSourcesJira, TomlSourcesJiraQueue,
};
use clhorde::scheduler::explore::DEFAULT_IDLE_THRESHOLD;
use clhorde::time::seconds;

fn text(table: &toml::Table, key: &str) -> Option<String> {
    table.get(key).map(|v| v.as_str().unwrap().to_string())
}

fn whole(table: &toml::Table, key: &str) -> Option<u64> {
    table.get(key).map(|v| v.as_integer().unwrap() as u64)
}

fn switch(table: &toml::Table, key: &str) -> Option<bool> {
    table.get(key).map(|v| v.as_bool().unwrap())
}

fn parse_queue(table: &toml::Table) -> TomlSourcesJiraQueue {
    let transitions = match table.get("transitions") {
        Some(t) => t
            .as_table()
            .unwrap()
            .iter()
            .map(|(k, v)| (k.clone(), v.as_str().unwrap().to_string()))
            .collect(),
        None => vec![],
    };
    TomlSourcesJiraQueue {
        filter_jql: text(table, "filter_jql"),
        mode: text(table, "mode"),
        comments: switch(table, "comments"),
        labels: switch(table, "labels"),
        trigger_label: text(table, "trigger_label"),
        transitions,
    }
}

fn parse(toml_str: &str) -> TomlSourcesJira {
    let config: toml::Table = toml_str.parse().unwrap();
    let jira = config["sources"]["jira"].as_table().unwrap();
    let queues = match jira.get("queues") {
        Some(qs) => qs
            .as_table()
            .unwrap()
            .iter()
            .map(|(name, q)| TomlNamedQueue {
                name: name.clone(),
                queue: parse_queue(q.as_table().unwrap()),
            })
            .collect(),
        None => vec![],
    };
    TomlSourcesJira {
        url: text(jira, "url"),
        email: text(jira, "email"),
        auth_token_env: text(jira, "auth_token_env"),
        poll_interval_secs: whole(jira, "poll_interval_secs"),
        max_concurrent_explore: whole(jira, "max_concurrent_explore").map(|n| n as usize),
        idle_explore_timeout: whole(jira, "idle_explore_timeout"),
        queues,
    }
}

#[test]
fn round_trip_full_config() {
    let toml_str = r#"
[sources.jira]
url = "https://example.atlassian.net"
email = "bot@example.com"
auth_token_env = "JIRA_TOKEN"
poll_interval_secs = 60
max_concurrent_explore = 3
idle_explore_timeout = 7200

[sources.jira.queues.backlog]
filter_jql = "project = PROJ AND labels = clhorde-plan"
mode = "openspec"
comments = true
labels = true

[sources.jira.queues.backlog.transitions]
exploring = "31"
archived = "61"

[sources.jira.queues.urgent]
filter_jql = "priority = Highest AND labels = clhorde-plan"
"#;
    let parsed = parse(toml_str);
    let cfg = build(&parsed).expect("config valid");

    assert_eq!(cfg.url, "https://example.atlassian.net");
    assert_eq!(cfg.email, "bot@example.com");
    assert_eq!(cfg.auth_token_env, "JIRA_TOKEN");
    assert_eq!(cfg.poll_interval, seconds(60));
    assert!(!cfg.poll_interval_clamped);
    assert_eq!(cfg.max_concurrent_explore, 3);
    assert_eq!(cfg.idle_explore_timeout, seconds(7200));

    assert_eq!(cfg.queues.len(), 2);
    assert_eq!(cfg.queues[0].config.name, "backlog");
    assert_eq!(
        cfg.queues[0].config.filter_jql,
        "project = PROJ AND labels = clhorde-plan"
    );
    assert!(cfg.queues[0].writeback.comments);
    assert!(cfg.queues[0].writeback.labels);
    assert_eq!(cfg.queues[0].writeback.trigger_label, DEFAULT_TRIGGER_LABEL);
    assert_eq!(
        cfg.queues[0].writeback.transitions.get(LifecyclePhase::Exploring),
        Some(&"31".to_string()),
    );
    assert_eq!(
        cfg.queues[0].writeback.transitions.get(LifecyclePhase::Archived),
        Some(&"61".to_string()),
    );

    assert_eq!(cfg.queues[1].config.name, "urgent");
    assert!(cfg.queues[1].writeback.comments);
    assert!(cfg.queues[1].writeback.labels);
    assert!(cfg.queues[1].writeback.transitions.is_empty());
}

#[test]
fn defaults_applied_when_optional_fields_omitted() {
    let toml_str = r#"
[sources.jira]
url = "https://example.atlassian.net"
email = "bot@example.com"
auth_token_env = "JIRA_TOKEN"

[sources.jira.queues.backlog]
filter_jql = "project = PROJ"
"#;
    let parsed = parse(toml_str);
    let cfg = build(&parsed).expect("defaults must produce a valid config");

    assert_eq!(cfg.poll_interval, DEFAULT_POLL_INTERVAL);
    assert!(!cfg.poll_interval_clamped);
    assert_eq!(cfg.max_concurrent_explore, DEFAULT_MAX_CONCURRENT_EXPLORE);
    assert_eq!(cfg.idle_explore_timeout, DEFAULT_IDLE_THRESHOLD);

    let q = &cfg.queues[0];
    assert!(q.writeback.comments, "comments default on");
    assert!(q.writeback.labels, "labels default on");
    assert_eq!(q.writeback.trigger_label, DEFAULT_TRIGGER_LABEL);
    assert!(q.writeback.transitions.is_empty(), "transitions default off");
}

#[test]
fn poll_interval_below_floor_is_clamped() {
    let toml_str = r#"
[sources.jira]
url = "https://x.atlassian.net"
email = "a@b.c"
auth_token_env = "TOK"
poll_interval_secs = 5

[sources.jira.queues.backlog]
filter_jql = "project = PROJ"
"#;
    let parsed = parse(toml_str);
    let cfg = build(&parsed).expect("config valid even when clamped");
    assert_eq!(cfg.poll_interval, MIN_POLL_INTERVAL);
    assert!(cfg.poll_interval_clamped);
}

#[test]
fn missing_url_is_an_error() {
    let toml = TomlSourcesJira {
        url: None,
        email: Some("a@b.c".into()),
        auth_token_env: Some("TOK".into()),
        poll_interval_secs: None,
        max_concurrent_explore: None,
        idle_explore_timeout: None,
        queues: vec![],
    };
    let errs = build(&toml).expect_err("missing url must fail");
    assert!(errs.contains(&JiraConfigError::MissingUrl), "got {errs:?}");
}

#[test]
fn missing_email_is_an_error() {
    let toml = TomlSourcesJira {
        url: Some("https://x.atlassian.net".into()),
        email: None,
        auth_token_env: Some("TOK".into()),
        poll_interval_secs: None,
        max_concurrent_explore: None,
        idle_explore_timeout: None,
        queues: vec![],
    };
    let errs = build(&toml).expect_err("missing email must fail");
    assert!(errs.contains(&JiraConfigError::MissingEmail), "got {errs:?}");
}

#[test]
fn missing_auth_token_env_is_an_error() {
    let toml = TomlSourcesJira {
        url: Some("https://x.atlassian.net".into()),
        email: Some("a@b.c".into()),
        auth_token_env: None,
        poll_interval_secs: None,
        max_concurrent_explore: None,
        idle_explore_timeout: None,
        queues: vec![],
    };
    let errs = build(&toml).expect_err("missing auth_token_env must fail");
    assert!(
        errs.contains(&JiraConfigError::MissingAuthTokenEnv),
        "got {errs:?}",
    );
}

#[test]
fn whitespace_only_required_fields_are_treated_as_missing() {
    let toml_str = r#"
[sources.jira]
url = "   "
email = ""
auth_token_env = "\n"
"#;
    let parsed = parse(toml_str);
    let errs = build(&parsed).expect_err("whitespace-only fields must fail");
    assert!(errs.contains(&JiraConfigError::MissingUrl));
    assert!(errs.contains(&JiraConfigError::MissingEmail));
    assert!(errs.contains(&JiraConfigError::MissingAuthTokenEnv));
}

#[test]
fn missing_filter_jql_is_an_error() {
    let toml_str = r#"
[sources.jira]
url = "https://x.atlassian.net"
email = "a@b.c"
auth_token_env = "TOK"

[sources.jira.queues.backlog]
"#;
    let parsed = parse(toml_str);
    let errs = build(&parsed).expect_err("queue without filter_jql must fail");
    assert!(
        errs.iter().any(|e| matches!(
            e,
            JiraConfigError::MissingFilterJql { queue } if queue == "backlog"
        )),
        "got {errs:?}",
    );
}

#[test]
fn direct_mode_is_rejected_with_clear_pointer_to_followup() {
    let toml_str = r#"
[sources.jira]
url = "https://x.atlassian.net"
email = "a@b.c"
auth_token_env = "TOK"

[sources.jira.queues.foo]
filter_jql = "project = PROJ"
mode = "direct"
"#;
    let parsed = parse(toml_str);
    let errs = build(&parsed).expect_err("direct mode must be rejected");
    assert!(
        errs.iter().any(|e| matches!(
            e,
            JiraConfigError::DirectModeNotImplemented { queue } if queue == "foo"
        )),
        "got {errs:?}",
    );
    let msg = errs[0].to_text();
    assert!(
        msg.contains("not yet implemented"),
        "error message should mention follow-up change: {msg}",
    );
}

#[test]
fn unrecognised_mode_is_rejected() {
    let toml_str = r#"
[sources.jira]
url = "https://x.atlassian.net"
email = "a@b.c"
auth_token_env = "TOK"

[sources.jira.queues.foo]
filter_jql = "project = PROJ"
mode = "weird"
"#;
    let parsed = parse(toml_str);
    let errs = build(&parsed).expect_err("unknown mode must be rejected");
    assert!(
        errs.iter().any(|e| matches!(
            e,
            JiraConfigError::UnrecognisedMode { queue, mode }
                if queue == "foo" && mode == "weird"
        )),
        "got {errs:?}",
    );
}

#[test]
fn openspec_mode_is_the_default() {
    let toml_str = r#"
[sources.jira]
url = "https://x.atlassian.net"
email = "a@b.c"
auth_token_env = "TOK"

[sources.jira.queues.foo]
filter_jql = "project = PROJ"
"#;
    let parsed = parse(toml_str);
    let cfg = build(&parsed).expect("openspec is the default");
    assert_eq!(cfg.queues.len(), 1);
    assert_eq!(cfg.queues[0].config.name, "foo");
}

#[test]
fn unrecognised_transition_phase_is_rejected() {
    let toml_str = r#"
[sources.jira]
url = "https://x.atlassian.net"
email = "a@b.c"
auth_token_env = "TOK"

[sources.jira.queues.foo]
filter_jql = "project = PROJ"

[sources.jira.queues.foo.transitions]
unknown_phase = "31"
"#;
    let parsed = parse(toml_str);
    let errs = build(&parsed).expect_err("unknown transition phase must fail");
    assert!(
        errs.iter().any(|e| matches!(
            e,
            JiraConfigError::UnrecognisedTransitionPhase { queue, phase }
                if queue == "foo" && phase == "unknown_phase"
        )),
        "got {errs:?}",
    );
}

#[test]
fn transition_phase_lookup_is_case_insensitive_and_accepts_canceled_alias() {
    let toml_str = r#"
[sources.jira]
url = "https://x.atlassian.net"
email = "a@b.c"
auth_token_env = "TOK"

[sources.jira.queues.foo]
filter_jql = "project = PROJ"

[sources.jira.queues.foo.transitions]
EXPLORING = "11"
Archived = "21"
canceled = "31"
"#;
    let parsed = parse(toml_str);
    let cfg = build(&parsed).expect("case-insensitive phase names are accepted");
    let t = &cfg.queues[0].writeback.transitions;
    assert_eq!(t.get(LifecyclePhase::Exploring), Some(&"11".to_string()));
    assert_eq!(t.get(LifecyclePhase::Archived), Some(&"21".to_string()));
    assert_eq!(t.get(LifecyclePhase::Cancelled), Some(&"31".to_string()));
}

#[test]
fn zero_max_concurrent_explore_is_rejected() {
    let toml_str = r#"
[sources.jira]
url = "https://x.atlassian.net"
email = "a@b.c"
auth_token_env = "TOK"
max_concurrent_explore = 0
"#;
    let parsed = parse(toml_str);
    let errs = build(&parsed).expect_err("max_concurrent_explore = 0 must fail");
    assert!(
        errs.contains(&JiraConfigError::ZeroMaxConcurrentExplore),
        "got {errs:?}",
    );
}

#[test]
fn unsafe_queue_name_is_rejected() {
    let toml_str = r#"
[sources.jira]
url = "https://x.atlassian.net"
email = "a@b.c"
auth_token_env = "TOK"

[sources.jira.queues."../escape"]
filter_jql = "project = PROJ"
"#;
    let parsed = parse(toml_str);
    let errs = build(&parsed).expect_err("path-traversal queue name must fail");
    assert!(
        errs.iter().any(|e| matches!(
            e,
            JiraConfigError::UnsafeQueueName { queue } if queue == "../escape"
        )),
        "got {errs:?}",
    );
}

#[test]
fn queues_are_sorted_for_deterministic_output() {
    let toml_str = r#"
[sources.jira]
url = "https://x.atlassian.net"
email = "a@b.c"
auth_token_env = "TOK"

[sources.jira.queues.zeta]
filter_jql = "z"

[sources.jira.queues.alpha]
filter_jql = "a"

[sources.jira.queues.middle]
filter_jql = "m"
"#;
    let parsed = parse(toml_str);
    let cfg = build(&parsed).unwrap();
    let names: Vec<_> = cfg.queues.iter().map(|q| q.config.name.clone()).collect();
    assert_eq!(names, vec!["alpha", "middle", "zeta"]);
}

#[test]
fn source_config_carries_clamped_interval_and_queue_set() {
    let toml_str = r#"
[sources.jira]
url = "https://x.atlassian.net"
email = "a@b.c"
auth_token_env = "TOK"
poll_interval_secs = 1

[sources.jira.queues.backlog]
filter_jql = "project = PROJ"
"#;
    let parsed = parse(toml_str);
    let cfg = build(&parsed).unwrap();
    let src = cfg.source_config();
    assert_eq!(src.poll_interval, MIN_POLL_INTERVAL);
    assert_eq!(src.queues.len(), 1);
    assert_eq!(src.queues[0].name, "backlog");
}

#[test]
fn writeback_for_returns_per_queue_config() {
    let toml_str = r#"
[sources.jira]
url = "https://x.atlassian.net"
email = "a@b.c"
auth_token_env = "TOK"

[sources.jira.queues.backlog]
filter_jql = "project = PROJ"
comments = false

[sources.jira.queues.urgent]
filter_jql = "priority = Highest"
labels = false
"#;
    let parsed = parse(toml_str);
    let cfg = build(&parsed).unwrap();
    let backlog = cfg.writeback_for("backlog").unwrap();
    let urgent = cfg.writeback_for("urgent").unwrap();
    assert!(!backlog.comments);
    assert!(backlog.labels);
    assert!(urgent.comments);
    assert!(!urgent.labels);
    assert!(cfg.writeback_for("nope").is_none());
}

#[test]
fn omitted_jira_block_is_not_a_validation_target() {
    let toml = TomlSourcesJira::default();
    let errs = build(&toml).expect_err("default block has no required fields");
    assert!(errs.contains(&JiraConfigError::MissingUrl));
    assert!(errs.contains(&JiraConfigError::MissingEmail));
    assert!(errs.contains(&JiraConfigError::MissingAuthTokenEnv));
}

#[test]
fn partial_skips_direct_queue_but_keeps_openspec_queues() {
    let toml_str = r#"
[sources.jira]
url = "https://x.atlassian.net"
email = "a@b.c"
auth_token_env = "TOK"

[sources.jira.queues.foo]
filter_jql = "project = PROJ"
mode = "direct"

[sources.jira.queues.bar]
filter_jql = "project = OTHER"
mode = "openspec"
"#;
    let parsed = parse(toml_str);
    let outcome = build_partial(&parsed).expect("source-level validation passes");
    let names: Vec<_> = outcome
        .config
        .queues
        .iter()
        .map(|q| q.config.name.clone())
        .collect();
    assert_eq!(names, vec!["bar"], "direct-mode queue must be dropped");
    assert!(
        outcome
            .skipped_queue_errors
            .iter()
            .any(|e| matches!(
                e,
                JiraConfigError::DirectModeNotImplemented { queue } if queue == "foo"
            )),
        "skipped errors must surface direct-mode rejection: {:?}",
        outcome.skipped_queue_errors,
    );
}

#[test]
fn partial_hard_fails_on_missing_source_required_fields() {
    let toml_str = r#"
[sources.jira]
poll_interval_secs = 60

[sources.jira.queues.foo]
filter_jql = "project = PROJ"
"#;
    let parsed = parse(toml_str);
    let errs = build_partial(&parsed).expect_err("missing url/email/token must hard-fail");
    assert!(errs.contains(&JiraConfigError::MissingUrl));
    assert!(errs.contains(&JiraConfigError::MissingEmail));
    assert!(errs.contains(&JiraConfigError::MissingAuthTokenEnv));
}

#[test]
fn partial_returns_clean_outcome_when_every_queue_passes() {
    let toml_str = r#"
[sources.jira]
url = "https://x.atlassian.net"
email = "a@b.c"
auth_token_env = "TOK"

[sources.jira.queues.bar]
filter_jql = "project = PROJ"
"#;
    let parsed = parse(toml_str);
    let outcome = build_partial(&parsed).unwrap();
    assert_eq!(outcome.config.queues.len(), 1);
    assert!(outcome.skipped_queue_errors.is_empty());
}

#[test]
fn partial_aggregates_multiple_queue_errors_per_queue() {
    let toml_str = r#"
[sources.jira]
url = "https://x.atlassian.net"
email = "a@b.c"
auth_token_env = "TOK"

[sources.jira.queues.foo]
mode = "weird"
"#;
    let parsed = parse(toml_str);
    let outcome = build_partial(&parsed).unwrap();
    assert!(outcome.config.queues.is_empty());
    assert!(
        outcome
            .skipped_queue_errors
            .iter()
            .any(|e| matches!(e, JiraConfigError::MissingFilterJql { .. })),
        "got {:?}",
        outcome.skipped_queue_errors,
    );
    assert!(
        outcome
            .skipped_queue_errors
            .iter()
            .any(|e| matches!(e, JiraConfigError::UnrecognisedMode { .. })),
        "got {:?}",
        outcome.skipped_queue_errors,
    );
}

#[test]
fn errors_aggregate_across_queues() {
    let toml_str = r#"
[sources.jira]
url = "https://x.atlassian.net"
email = "a@b.c"
auth_token_env = "TOK"

[sources.jira.queues.foo]
filter_jql = "project = PROJ"
mode = "direct"

[sources.jira.queues.bar]
filter_jql = "project = OTHER"
mode = "weird"
"#;
    let parsed = parse(toml_str);
    let errs = build(&parsed).expect_err("both queues misconfigured");
    let kinds: Vec<&JiraConfigError> = errs.iter().collect();
    assert!(
        kinds
            .iter()
            .any(|e| matches!(e, JiraConfigError::DirectModeNotImplemented { queue } if queue == "foo")),
        "expected DirectModeNotImplemented for foo: {errs:?}",
    );
    assert!(
        kinds.iter().any(|e| matches!(
            e,
            JiraConfigError::UnrecognisedMode { queue, .. } if queue == "bar"
        )),
        "expected UnrecognisedMode for bar: {errs:?}",
    );
}

#[test]
fn every_refusal_has_its_text() {
    let refusals = vec![
        JiraConfigError::MissingUrl,
        JiraConfigError::MissingEmail,
        JiraConfigError::MissingAuthTokenEnv,
        JiraConfigError::MissingFilterJql { queue: "q".into() },
        JiraConfigError::DirectModeNotImplemented { queue: "q".into() },
        JiraConfigError::UnrecognisedMode { queue: "q".into(), mode: "m".into() },
        JiraConfigError::UnrecognisedTransitionPhase { queue: "q".into(), phase: "p".into() },
        JiraConfigError::UnsafeQueueName { queue: "q/\"x\"".into() },
        JiraConfigError::ZeroMaxConcurrentExplore,
    ];
    let mut texts: Vec<String> = refusals.iter().map(|e| e.to_text()).collect();
    assert!(texts.iter().all(|t| !t.is_empty()));
    texts.sort();
    texts.dedup();
    assert_eq!(texts.len(), refusals.len());
}

#[test]
fn space_around_a_mode_is_trimmed() {
    let parsed = parse(
        r#"
[sources.jira]
url = "https://x.atlassian.net"
email = "a@b.c"
auth_token_env = "TOK"

[sources.jira.queues.foo]
filter_jql = "project = PROJ"
mode = " openspec "
"#,
    );
    assert_eq!(build(&parsed).map(|c| c.queues.len()), Ok(1));
}

#[test]
fn without_a_block_there_is_no_source() {
    let start = validate_jira_config(&TomlConfig::default());
    assert_eq!(start.config, None);
    assert!(start.mistakes.is_empty());
    let mut config = TomlConfig::default();
    config.sources = Some(TomlSources {
        jira: Some(TomlSourcesJira::default()),
    });
    let refused = validate_jira_config(&config);
    assert_eq!(refused.config, None);
    assert!(refused.mistakes.contains(&JiraConfigError::MissingUrl));
    config.sources = Some(TomlSources {
        jira: Some(parse(
            r#"
[sources.jira]
url = "https://x.atlassian.net"
email = "a@b.c"
auth_token_env = "TOK"

[sources.jira.queues.foo]
filter_jql = "project = PROJ"

[sources.jira.queues.bar]
mode = "direct"
filter_jql = "project = PROJ"
"#,
        )),
    });
    let start = validate_jira_config(&config);
    assert_eq!(start.config.unwrap().queues.len(), 1);
    assert_eq!(start.mistakes.len(), 1);
}

#[test]
fn a_filter_is_kept_as_it_is_written() {
    let queue = clhorde::keymap::TomlSourcesJiraQueue {
        filter_jql: Some("  project = PROJ ".to_string()),
        ..Default::default()
    };
    let built = clhorde::jira::config::build_queue("backlog", &queue).unwrap();
    assert_eq!(built.config.filter_jql, "  project = PROJ ");
    let blank = clhorde::keymap::TomlSourcesJiraQueue {
        filter_jql: Some("  ".to_string()),
        ..Default::default()
    };
    assert!(clhorde::jira::config::build_queue("backlog", &blank).is_err());
}

#[test]
fn a_queue_name_leads_out_of_no_directory() {
    for name in ["", ".", "..", "a..b", "a/b", "a\\b", "a\0b"] {
        assert!(!clhorde::jira::config::is_safe_queue_name(name));
    }
    for name in ["backlog", "a.b", "two words"] {
        assert!(clhorde::jira::config::is_safe_queue_name(name));
    }
}
