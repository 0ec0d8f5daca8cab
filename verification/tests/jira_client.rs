//! Requests to the ticket tracker and what follows from its answers.

use clhorde::jira::auth::JiraAuth;
use clhorde::jira::client::{
    payloads_from_issues, BackoffPolicy, HttpMethod, HttpReply, JiraClient, RawDescription,
    RawIssue, RawReporter, RequestBody, RequestStep,
};
use clhorde::jira::error::JiraError;
use clhorde::time::milliseconds;

fn auth() -> JiraAuth {
    JiraAuth::new("alice@example.com".into(), "token-xyz".into())
}

fn instant_client(uri: &str) -> JiraClient {
    JiraClient::with_backoff(uri, auth(), BackoffPolicy::instant(3)).unwrap()
}

fn reply(status: u16, body: &str) -> HttpReply {
    HttpReply::Response {
        status,
        body: body.to_string(),
    }
}

/// Sends until the policy is done, with the answers in order; tells how many
/// were used and how it ended.
fn send(policy: &BackoffPolicy, answers: Vec<HttpReply>) -> (usize, Result<(), JiraError>) {
    let mut attempt = 0;
    let mut used = 0;
    for answer in answers {
        used += 1;
        match policy.next_step(attempt, answer) {
            RequestStep::Done => return (used, Ok(())),
            RequestStep::Fail(e) => return (used, Err(e)),
            RequestStep::Retry { attempt: next, .. } => attempt = next,
        }
    }
    panic!("the answers ran out");
}

#[test]
fn search_success_returns_payloads() {
    let client = instant_client("http://localhost:8080");
    let request = client.search_jql("project = PROJ", 50).unwrap();
    assert_eq!(request.method, HttpMethod::Post);
    assert_eq!(request.url, "http://localhost:8080/rest/api/2/search");
    match request.body {
        RequestBody::Search {
            jql, max_results, ..
        } => {
            assert_eq!(jql, "project = PROJ");
            assert_eq!(max_results, 50);
        }
        other => panic!("expected Search, got {other:?}"),
    }
    let issues = payloads_from_issues(vec![
        RawIssue {
            key: "PROJ-1".into(),
            summary: Some("Add OAuth".into()),
            description: Some(RawDescription::Text("Need oauth flow".into())),
            labels: vec!["clhorde-plan".into(), "auth".into()],
            reporter: Some(RawReporter {
                display_name: Some("Alice".into()),
                account_id: Some("abc".into()),
            }),
        },
        RawIssue {
            key: "PROJ-2".into(),
            summary: Some("Other thing".into()),
            description: Some(RawDescription::Null),
            labels: vec![],
            reporter: None,
        },
    ]);
    assert_eq!(issues.len(), 2);
    assert_eq!(issues[0].key, "PROJ-1");
    assert_eq!(issues[0].title, "Add OAuth");
    assert_eq!(issues[0].description, "Need oauth flow");
    assert_eq!(issues[0].labels, vec!["clhorde-plan", "auth"]);
    assert_eq!(issues[0].reporter.as_deref(), Some("Alice"));
    assert_eq!(issues[1].title, "Other thing");
    assert_eq!(issues[1].description, "");
    assert!(issues[1].reporter.is_none());
}

#[test]
fn unauthorized_does_not_retry() {
    let (used, end) = send(&BackoffPolicy::instant(3), vec![reply(401, "nope")]);
    assert_eq!(used, 1);
    let err = end.expect_err("401 should be an error");
    assert!(matches!(err, JiraError::Unauthorized), "got {err:?}");
}

#[test]
fn forbidden_is_unauthorized() {
    let (used, end) = send(&BackoffPolicy::instant(3), vec![reply(403, "")]);
    assert_eq!(used, 1);
    assert!(matches!(end.unwrap_err(), JiraError::Unauthorized));
}

#[test]
fn retries_on_429_then_succeeds() {
    let (used, end) = send(
        &BackoffPolicy::instant(3),
        vec![
            reply(429, "transient"),
            reply(429, "transient"),
            reply(200, "{}"),
        ],
    );
    assert_eq!(used, 3);
    assert_eq!(end, Ok(()));
}

#[test]
fn retries_on_500_then_succeeds() {
    let (used, end) = send(
        &BackoffPolicy::instant(3),
        vec![reply(500, "transient"), reply(200, "{}")],
    );
    assert_eq!(used, 2);
    assert_eq!(end, Ok(()));
}

#[test]
fn gives_up_after_max_retries_on_500() {
    let answers = (0..10).map(|_| reply(500, "boom")).collect();
    let (used, end) = send(&BackoffPolicy::instant(3), answers);
    assert_eq!(used, 4);
    let err = end.unwrap_err();
    assert!(matches!(err, JiraError::Server { status: 500, .. }), "{err:?}");
}

#[test]
fn gives_up_after_max_retries_on_429() {
    let answers = (0..10).map(|_| reply(429, "slow down")).collect();
    let (used, end) = send(&BackoffPolicy::instant(3), answers);
    assert_eq!(used, 4);
    let err = end.unwrap_err();
    assert!(matches!(err, JiraError::RateLimited { .. }), "{err:?}");
}

#[test]
fn client_4xx_is_not_retried() {
    let (used, end) = send(&BackoffPolicy::instant(3), vec![reply(400, "bad jql")]);
    assert_eq!(used, 1);
    match end.unwrap_err() {
        JiraError::Client { status, .. } => assert_eq!(status, 400),
        other => panic!("expected Client error, got {other:?}"),
    }
}

#[test]
fn offline_returns_network_error() {
    let answers = (0..10)
        .map(|_| HttpReply::Failed {
            message: "connection refused".into(),
        })
        .collect();
    let (_, end) = send(&BackoffPolicy::instant(3), answers);
    let err = end.unwrap_err();
    assert!(matches!(err, JiraError::Network(_)), "{err:?}");
}

#[test]
fn add_comment_posts_body_to_correct_path() {
    let client = instant_client("http://localhost:8080");
    let request = client.add_comment("PROJ-1", "\u{1F916} hello").unwrap();
    assert_eq!(request.method, HttpMethod::Post);
    assert!(request.url.ends_with("/rest/api/2/issue/PROJ-1/comment"));
    assert_eq!(
        request.body,
        RequestBody::Comment {
            body: "\u{1F916} hello".into()
        }
    );
}

#[test]
fn transition_posts_to_transitions_endpoint() {
    let client = instant_client("http://localhost:8080");
    let request = client.transition("PROJ-1", "31").unwrap();
    assert_eq!(request.method, HttpMethod::Post);
    assert!(request.url.ends_with("/rest/api/2/issue/PROJ-1/transitions"));
    assert_eq!(request.body, RequestBody::Transition { id: "31".into() });
}

#[test]
fn add_label_puts_to_issue_endpoint() {
    let client = instant_client("http://localhost:8080");
    let request = client.add_label("PROJ-1", "clhorde-plan").unwrap();
    assert_eq!(request.method, HttpMethod::Put);
    assert!(request.url.ends_with("/rest/api/2/issue/PROJ-1"));
    assert_eq!(
        request.body,
        RequestBody::Label {
            op: "add".into(),
            label: "clhorde-plan".into()
        }
    );
}

#[test]
fn remove_label_puts_to_issue_endpoint() {
    let client = instant_client("http://localhost:8080");
    let request = client.remove_label("PROJ-1", "clhorde-plan").unwrap();
    assert_eq!(request.method, HttpMethod::Put);
    assert!(request.url.ends_with("/rest/api/2/issue/PROJ-1"));
    assert_eq!(
        request.body,
        RequestBody::Label {
            op: "remove".into(),
            label: "clhorde-plan".into()
        }
    );
}

#[test]
fn backoff_grows_exponentially() {
    let p = BackoffPolicy {
        max_retries: 5,
        base_delay_ms: 100,
        max_delay_ms: 5_000,
    };
    assert_eq!(p.delay_for(0), milliseconds(100));
    assert_eq!(p.delay_for(1), milliseconds(200));
    assert_eq!(p.delay_for(2), milliseconds(400));
    assert_eq!(p.delay_for(3), milliseconds(800));
    assert_eq!(p.delay_for(20), milliseconds(5_000));
}

#[test]
fn instant_backoff_skips_sleep() {
    let p = BackoffPolicy::instant(3);
    for n in 0..10 {
        assert_eq!(p.delay_for(n), 0);
    }
}

#[test]
fn a_base_path_is_kept_before_the_endpoint() {
    let client = instant_client("https://example.com/jira");
    assert_eq!(
        client.url("rest/api/2/search").unwrap(),
        "https://example.com/jira/rest/api/2/search"
    );
    let slashed = instant_client("https://example.com/jira/");
    assert_eq!(
        slashed.url("/rest/api/2/search").unwrap(),
        "https://example.com/jira/rest/api/2/search"
    );
    let err = match JiraClient::new("not a url", auth()) {
        Ok(_) => panic!("expected a refusal"),
        Err(e) => e,
    };
    assert!(matches!(err, JiraError::InvalidUrl(_)));
}

#[test]
fn a_description_that_is_no_text_is_kept_as_json() {
    let issue = RawIssue {
        key: "PROJ-3".into(),
        summary: None,
        description: Some(RawDescription::Other("{\"type\":\"doc\"}".into())),
        labels: vec![],
        reporter: Some(RawReporter {
            display_name: None,
            account_id: Some("abc".into()),
        }),
    };
    let payloads = payloads_from_issues(vec![issue]);
    assert_eq!(payloads[0].description, "{\"type\":\"doc\"}");
    assert_eq!(payloads[0].title, "");
    assert_eq!(payloads[0].reporter.as_deref(), Some("abc"));
}

#[test]
fn errors_have_their_texts() {
    let errors = vec![
        JiraError::EnvMissing { var: "TOK".into() },
        JiraError::InvalidUrl("x".into()),
        JiraError::Network("refused".into()),
        JiraError::Unauthorized,
        JiraError::Client { status: 404, body: "hidden".into() },
        JiraError::Server { status: 502, body: "hidden".into() },
        JiraError::RateLimited { body: "hidden".into() },
        JiraError::Decode("eof".into()),
    ];
    for e in &errors {
        let text = e.to_text();
        assert!(!text.is_empty());
        assert!(!text.contains("hidden"));
    }
    assert!(errors[0].to_text().contains("TOK"));
    assert!(errors[2].to_text().contains("network"));
    assert!(errors[4].to_text().contains("404"));
}

#[test]
fn addresses_are_made_from_short_sites_only() {
    assert!(instant_client("https://jira.example.com/base").is_short());
    let long = format!("https://jira.example.com/{}", "a".repeat(0x100_0000));
    assert!(!instant_client(&long).is_short());
}

#[test]
fn endpoints_are_relative() {
    assert_eq!(clhorde::jira::client::strip_slashes("//rest/api/"), "rest/api/");
    assert_eq!(clhorde::jira::client::strip_slashes("rest"), "rest");
    assert_eq!(clhorde::jira::client::strip_slashes("/"), "");
}
