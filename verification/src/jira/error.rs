//! What can go wrong with a Jira request.

use vstd::prelude::*;
use vstd::string::*;

use crate::text;

verus! {

/// An error of the Jira REST client.
#[derive(Debug, PartialEq)]
pub enum JiraError {
    /// The environment variable for the token is unset or blank.
    EnvMissing { var: String },
    /// The address of the site is no URL.
    InvalidUrl(String),
    /// The request got no response.
    Network(String),
    /// The credentials were refused (401 or 403).
    Unauthorized,
    /// Any other refusal that another attempt would not change.
    Client { status: u16, body: String },
    /// A server error that outlasted the retries.
    Server { status: u16, body: String },
    /// 429 that outlasted the retries.
    RateLimited { body: String },
    /// The body of the response has not the expected shape.
    Decode(String),
}

/// What a [`JiraError`] holds.
pub ghost enum JiraErrorView {
    EnvMissing { var: Seq<char> },
    InvalidUrl(Seq<char>),
    Network(Seq<char>),
    Unauthorized,
    Client { status: u16, body: Seq<char> },
    Server { status: u16, body: Seq<char> },
    RateLimited { body: Seq<char> },
    Decode(Seq<char>),
}

impl View for JiraError {
    type V = JiraErrorView;

    open spec fn view(&self) -> JiraErrorView {
        match *self {
            JiraError::EnvMissing { var } => JiraErrorView::EnvMissing { var: var@ },
            JiraError::InvalidUrl(s) => JiraErrorView::InvalidUrl(s@),
            JiraError::Network(s) => JiraErrorView::Network(s@),
            JiraError::Unauthorized => JiraErrorView::Unauthorized,
            JiraError::Client { status, body } => JiraErrorView::Client { status, body: body@ },
            JiraError::Server { status, body } => JiraErrorView::Server { status, body: body@ },
            JiraError::RateLimited { body } => JiraErrorView::RateLimited { body: body@ },
            JiraError::Decode(s) => JiraErrorView::Decode(s@),
        }
    }
}

/// The message for an error. No body of a response is in it.
pub open spec fn jira_error_text(e: JiraErrorView) -> Seq<char> {
    match e {
        JiraErrorView::EnvMissing { var } => "Jira auth env var `"@ + var + "` is unset or empty"@,
        JiraErrorView::InvalidUrl(s) => "invalid Jira URL: "@ + s,
        JiraErrorView::Network(s) => "Jira network error: "@ + s,
        JiraErrorView::Unauthorized => "Jira returned 401/403 — check auth_token_env"@,
        JiraErrorView::Client { status, .. } => "Jira returned HTTP "@ + text::decimal(
            status as nat,
        ),
        JiraErrorView::Server { status, .. } => "Jira returned HTTP "@ + text::decimal(
            status as nat,
        ) + " after retries"@,
        JiraErrorView::RateLimited { .. } => "Jira rate-limited (429) after retries"@,
        JiraErrorView::Decode(s) => "Jira response decode error: "@ + s,
    }
}

impl JiraError {
    /// The message for this error.
    pub fn to_text(&self) -> (r: String)
        ensures
            r@ == jira_error_text(self@),
    {
        match self {
            JiraError::EnvMissing { var } => text::cat3(
                "Jira auth env var `",
                var.as_str(),
                "` is unset or empty",
            ),
            JiraError::InvalidUrl(s) => text::cat2("invalid Jira URL: ", s.as_str()),
            JiraError::Network(s) => text::cat2("Jira network error: ", s.as_str()),
            JiraError::Unauthorized => text::owned("Jira returned 401/403 — check auth_token_env"),
            JiraError::Client { status, .. } => {
                let n: String = text::number(*status as u128);
                text::cat2("Jira returned HTTP ", n.as_str())
            },
            JiraError::Server { status, .. } => {
                let n: String = text::number(*status as u128);
                text::cat3("Jira returned HTTP ", n.as_str(), " after retries")
            },
            JiraError::RateLimited { .. } => text::owned("Jira rate-limited (429) after retries"),
            JiraError::Decode(s) => text::cat2("Jira response decode error: ", s.as_str()),
        }
    }
}

/// The message for an error says nothing of the body that came with it.
pub proof fn error_text_hides_body(status: u16, a: Seq<char>, b: Seq<char>)
    ensures
        jira_error_text(JiraErrorView::Client { status, body: a }) == jira_error_text(
            JiraErrorView::Client { status, body: b },
        ),
        jira_error_text(JiraErrorView::Server { status, body: a }) == jira_error_text(
            JiraErrorView::Server { status, body: b },
        ),
        jira_error_text(JiraErrorView::RateLimited { body: a }) == jira_error_text(
            JiraErrorView::RateLimited { body: b },
        ),
{
}

} // verus!
