//! The REST requests to a Jira site, and when one is tried again.

use vstd::arithmetic::power2::{lemma2_to64, lemma_pow2_unfold, pow2};
use vstd::prelude::*;
use vstd::string::*;

use super::auth::JiraAuth;
use super::error::{JiraError, JiraErrorView};
use super::event::{payload_views, JiraTicketPayload, PayloadView};
use crate::text;
use crate::time::{self, Nanos, MILLISECOND};

verus! {

// ---------------------------------------------------------------------
// Retries
// ---------------------------------------------------------------------

/// How often a request is tried again, and how long to wait before that.
#[derive(Clone, Copy, Debug, PartialEq)]
pub struct BackoffPolicy {
    pub max_retries: u32,
    pub base_delay_ms: u64,
    pub max_delay_ms: u64,
}

impl Default for BackoffPolicy {
    fn default() -> (r: Self)
        ensures
            r == (BackoffPolicy { max_retries: 5, base_delay_ms: 500, max_delay_ms: 30_000 }),
    {
        BackoffPolicy { max_retries: 5, base_delay_ms: 500, max_delay_ms: 30_000 }
    }
}

/// The smaller of two numbers.
pub open spec fn smaller(a: int, b: int) -> int {
    if a < b {
        a
    } else {
        b
    }
}

/// The wait before the try that follows try number `attempt`: it doubles from
/// try to try, up to the limit.
pub open spec fn wait_after(p: BackoffPolicy, attempt: u32) -> Nanos {
    (smaller(p.base_delay_ms * pow2(smaller(attempt as int, 20) as nat), p.max_delay_ms as int)
        * MILLISECOND) as Nanos
}

impl BackoffPolicy {
    /// Tries without a wait between them.
    pub fn instant(max_retries: u32) -> (r: BackoffPolicy)
        ensures
            r == (BackoffPolicy { max_retries, base_delay_ms: 0, max_delay_ms: 0 }),
    {
        BackoffPolicy { max_retries, base_delay_ms: 0, max_delay_ms: 0 }
    }

    /// The wait before the try that follows try number `attempt`.
    pub fn delay_for(&self, attempt: u32) -> (r: Nanos)
        ensures
            r == wait_after(*self, attempt),
    {
        let k: u32 = if attempt < 20 {
            attempt
        } else {
            20
        };
        let mut factor: u128 = 1;
        let mut i: u32 = 0;
        proof {
            lemma2_to64();
        }
        while i < k
            invariant
                i <= k <= 20,
                factor == pow2(i as nat),
                factor <= 0x100000 && (i < 20 ==> factor <= 0x80000),
            decreases k - i,
        {
            proof {
                lemma_pow2_unfold((i + 1) as nat);
                lemma2_to64();
                pow2_within(i as nat + 1);
            }
            factor = factor * 2;
            i = i + 1;
        }
        proof {
            assert(self.base_delay_ms * factor <= 18446744073709551615 * 0x100000)
                by (nonlinear_arith)
                requires
                    self.base_delay_ms <= 18446744073709551615,
                    factor <= 0x100000,
            ;
        }
        let grown: u128 = self.base_delay_ms as u128 * factor;
        let ms: u64 = if grown < self.max_delay_ms as u128 {
            grown as u64
        } else {
            self.max_delay_ms
        };
        time::milliseconds(ms)
    }
}

/// Powers of two up to the twentieth.
proof fn pow2_within(n: nat)
    requires
        n <= 20,
    ensures
        pow2(n) <= 0x100000,
        n < 20 ==> pow2(n) <= 0x80000,
    decreases 20 - n,
{
    lemma2_to64();
    if n < 20 {
        lemma_pow2_unfold(n + 1);
        pow2_within(n + 1);
    }
}

/// The wait never gets longer than the limit.
pub proof fn wait_is_bounded(p: BackoffPolicy, attempt: u32)
    ensures
        wait_after(p, attempt) <= p.max_delay_ms * MILLISECOND,
{
    let ms = smaller(p.base_delay_ms * pow2(smaller(attempt as int, 20) as nat), p.max_delay_ms as int);
    assert(0 <= p.base_delay_ms * pow2(smaller(attempt as int, 20) as nat)) by (nonlinear_arith)
        requires
            0 <= p.base_delay_ms,
            0 <= pow2(smaller(attempt as int, 20) as nat),
    ;
    assert(0 <= ms * 1_000_000 <= p.max_delay_ms * 1_000_000) by (nonlinear_arith)
        requires
            0 <= ms <= p.max_delay_ms,
    ;
}

/// What came back of one try.
#[derive(Debug, PartialEq)]
pub enum HttpReply {
    /// A response with its status and its body.
    Response { status: u16, body: String },
    /// No response.
    Failed { message: String },
}

/// What to do after a try.
#[derive(Debug, PartialEq)]
pub enum RequestStep {
    /// The request succeeded.
    Done,
    /// The request failed for good.
    Fail(JiraError),
    /// Wait, and try again as try number `attempt`.
    Retry { attempt: u32, delay: Nanos },
}

/// Whether a status may be another one at the next try.
pub open spec fn retryable(status: u16) -> bool {
    status == 429 || 500 <= status <= 599
}

/// What a reply is after try number `attempt`: a success, a failure for good,
/// or neither, where it is tried again.
pub open spec fn failure_after(p: BackoffPolicy, attempt: u32, reply: HttpReply) -> Option<
    JiraErrorView,
> {
    match reply {
        HttpReply::Response { status, body } => if 200 <= status <= 299 {
            None
        } else if status == 401 || status == 403 {
            Some(JiraErrorView::Unauthorized)
        } else if !retryable(status) {
            Some(JiraErrorView::Client { status, body: body@ })
        } else if attempt < p.max_retries {
            None
        } else if status == 429 {
            Some(JiraErrorView::RateLimited { body: body@ })
        } else {
            Some(JiraErrorView::Server { status, body: body@ })
        },
        HttpReply::Failed { message } => if attempt < p.max_retries {
            None
        } else {
            Some(JiraErrorView::Network(message@))
        },
    }
}

/// Whether `r` is what to do after try number `attempt` brought `reply`.
pub open spec fn step_after(
    r: RequestStep,
    p: BackoffPolicy,
    attempt: u32,
    reply: HttpReply,
) -> bool {
    match r {
        RequestStep::Done => reply matches HttpReply::Response { status, .. } && 200 <= status
            <= 299,
        RequestStep::Fail(e) => failure_after(p, attempt, reply) == Some(e@),
        RequestStep::Retry { attempt: next, delay } => {
            &&& failure_after(p, attempt, reply) is None
            &&& !(reply matches HttpReply::Response { status, .. } && 200 <= status <= 299)
            &&& attempt < p.max_retries
            &&& next == attempt + 1
            &&& delay == wait_after(p, attempt)
        },
    }
}

impl BackoffPolicy {
    /// What to do after try number `attempt` brought `reply`.
    pub fn next_step(&self, attempt: u32, reply: HttpReply) -> (r: RequestStep)
        ensures
            step_after(r, *self, attempt, reply),
    {
        match reply {
            HttpReply::Response { status, body } => {
                if 200 <= status && status <= 299 {
                    return RequestStep::Done;
                }
                if status == 401 || status == 403 {
                    return RequestStep::Fail(JiraError::Unauthorized);
                }
                if status != 429 && !(500 <= status && status <= 599) {
                    return RequestStep::Fail(JiraError::Client { status, body });
                }
                if attempt >= self.max_retries {
                    return RequestStep::Fail(
                        if status == 429 {
                            JiraError::RateLimited { body }
                        } else {
                            JiraError::Server { status, body }
                        },
                    );
                }
            },
            HttpReply::Failed { message } => {
                if attempt >= self.max_retries {
                    return RequestStep::Fail(JiraError::Network(message));
                }
            },
        }
        RequestStep::Retry { attempt: attempt + 1, delay: self.delay_for(attempt) }
    }
}

// ---------------------------------------------------------------------
// Addresses
// ---------------------------------------------------------------------

/// What `Url::parse` makes of `s`: the URL as it is written out and its path,
/// or the message for the error.
pub uninterp spec fn parsed_url(s: Seq<char>) -> Result<(Seq<char>, Seq<char>), Seq<char>>;

/// `url::Url::parse`, with the parsed URL given by its serialization and its
/// path. Which text is a URL, and how it is written out, is left to the `url`
/// crate; the same text always gives the same result.
#[verifier::external_body]
fn parse_url(s: &str) -> (r: Result<(String, String), String>)
    ensures
        (match r {
            Ok((url, path)) => Ok((url@, path@)),
            Err(e) => Err(e@),
        }) == parsed_url(s@),
{
    match url::Url::parse(s) {
        Ok(u) => Ok((u.as_str().to_string(), u.path().to_string())),
        Err(e) => Err(e.to_string()),
    }
}

/// The URL `base` with `Url::set_path` to `path`; `None` where `base` is no
/// URL.
pub uninterp spec fn url_with_path(base: Seq<char>, path: Seq<char>) -> Option<Seq<char>>;

/// The longest text that a path is set in. The `url` crate counts in 32 bits
/// and panics where a URL outgrows them; what it writes out is longer than what
/// it reads by a small factor.
pub const MAX_URL_LEN: usize = 0x100_0000;

/// `url::Url::set_path` on the URL that `base` writes out. How the path is
/// encoded is left to the `url` crate; the same arguments always give the same
/// result.
#[verifier::external_body]
fn set_url_path(base: &str, path: &str) -> (r: Option<String>)
    requires
        base@.len() <= MAX_URL_LEN,
        path@.len() <= MAX_URL_LEN,
    ensures
        text::text_option(r) == url_with_path(base@, path@),
{
    let mut u = url::Url::parse(base).ok()?;
    u.set_path(path);
    Some(u.to_string())
}

/// What `Url::join` makes of `rel` as seen from the URL `base`.
pub uninterp spec fn joined_url(base: Seq<char>, rel: Seq<char>) -> Result<Seq<char>, Seq<char>>;

/// `url::Url::join` on the URL that `base` writes out. The resolution of a
/// relative reference is left to the `url` crate; the same arguments always
/// give the same result.
#[verifier::external_body]
fn join_url(base: &str, rel: &str) -> (r: Result<String, String>)
    ensures
        (match r {
            Ok(u) => Ok(u@),
            Err(e) => Err(e@),
        }) == joined_url(base@, rel@),
{
    match url::Url::parse(base).and_then(|b| b.join(rel)) {
        Ok(u) => Ok(u.to_string()),
        Err(e) => Err(e.to_string()),
    }
}

/// `s` without the slashes in front.
pub open spec fn without_slashes(s: Seq<char>) -> Seq<char>
    decreases s.len(),
{
    if s.len() > 0 && s[0] == '/' {
        without_slashes(s.skip(1))
    } else {
        s
    }
}

/// `s` without the slashes in front.
pub fn strip_slashes(s: &str) -> (r: String)
    ensures
        r@ == without_slashes(s@),
{
    let cs: Vec<char> = text::chars_of(s);
    let mut i: usize = 0;
    proof {
        assert(cs@.skip(0) =~= cs@);
    }
    while i < cs.len() && cs[i] == '/'
        invariant
            cs@ == s@,
            i <= cs.len(),
            without_slashes(s@) == without_slashes(cs@.skip(i as int)),
        decreases cs.len() - i,
    {
        proof {
            assert(cs@.skip(i as int)[0] == '/');
            assert(cs@.skip(i as int).skip(1) =~= cs@.skip(i + 1));
        }
        i = i + 1;
    }
    proof {
        assert(cs@.skip(i as int) =~= cs@.subrange(i as int, cs@.len() as int));
    }
    text::string_of(&cs, i, cs.len())
}

/// The directory that the endpoints of a site are seen from: its URL, with a
/// slash at the end of the path.
pub open spec fn site_directory(base: Seq<char>, path: Seq<char>) -> Seq<char> {
    if path.len() > 0 && path.last() == '/' {
        base
    } else {
        match url_with_path(base, path + "/"@) {
            Some(u) => u,
            None => base,
        }
    }
}

/// The address of an endpoint of a site.
pub open spec fn endpoint_url(base: Seq<char>, path: Seq<char>, endpoint: Seq<char>) -> Result<
    Seq<char>,
    Seq<char>,
> {
    joined_url(site_directory(base, path), without_slashes(endpoint))
}

/// The directory that the endpoints of a site are seen from.
fn directory_of(base: &str, path: &str) -> (r: String)
    requires
        base@.len() <= MAX_URL_LEN,
        path@.len() < MAX_URL_LEN,
    ensures
        r@ == site_directory(base@, path@),
{
    if text::ends_with_char(path, '/') {
        return text::owned(base);
    }
    let new_path: String = text::cat2(path, "/");
    proof {
        reveal_strlit("/");
    }
    match set_url_path(base, new_path.as_str()) {
        Some(u) => u,
        None => text::owned(base),
    }
}

// ---------------------------------------------------------------------
// Requests
// ---------------------------------------------------------------------

/// The method of a request.
#[derive(Debug, Clone, Copy, PartialEq, Eq, Structural)]
pub enum HttpMethod {
    Post,
    Put,
}

/// What a request says.
#[derive(Debug, PartialEq)]
pub enum RequestBody {
    Search { jql: String, max_results: u32, fields: Vec<String> },
    Comment { body: String },
    Transition { id: String },
    /// Change a label: `op` is `add` or `remove`.
    Label { op: String, label: String },
}

/// What a [`RequestBody`] holds.
pub ghost enum RequestBodyView {
    Search { jql: Seq<char>, max_results: u32, fields: Seq<Seq<char>> },
    Comment { body: Seq<char> },
    Transition { id: Seq<char> },
    Label { op: Seq<char>, label: Seq<char> },
}

impl View for RequestBody {
    type V = RequestBodyView;

    open spec fn view(&self) -> RequestBodyView {
        match *self {
            RequestBody::Search { jql, max_results, fields } => RequestBodyView::Search {
                jql: jql@,
                max_results,
                fields: text::texts(fields@),
            },
            RequestBody::Comment { body } => RequestBodyView::Comment { body: body@ },
            RequestBody::Transition { id } => RequestBodyView::Transition { id: id@ },
            RequestBody::Label { op, label } => RequestBodyView::Label { op: op@, label: label@ },
        }
    }
}

/// A request to a Jira site.
#[derive(Debug, PartialEq)]
pub struct JiraRequest {
    pub method: HttpMethod,
    pub url: String,
    pub body: RequestBody,
}

/// What a [`JiraRequest`] holds.
pub ghost struct JiraRequestView {
    pub method: HttpMethod,
    pub url: Seq<char>,
    pub body: RequestBodyView,
}

impl View for JiraRequest {
    type V = JiraRequestView;

    open spec fn view(&self) -> JiraRequestView {
        JiraRequestView { method: self.method, url: self.url@, body: self.body@ }
    }
}

/// What a made request, or the error in its place, holds.
pub open spec fn made_view(r: Result<JiraRequest, JiraError>) -> Result<
    JiraRequestView,
    JiraErrorView,
> {
    match r {
        Ok(q) => Ok(q@),
        Err(e) => Err(e@),
    }
}

/// The request to an endpoint, or the error of a site whose address does not
/// take it.
pub open spec fn request_to(
    site: (Seq<char>, Seq<char>),
    endpoint: Seq<char>,
    method: HttpMethod,
    body: RequestBodyView,
) -> Result<JiraRequestView, JiraErrorView> {
    match endpoint_url(site.0, site.1, endpoint) {
        Ok(url) => Ok(JiraRequestView { method, url, body }),
        Err(e) => Err(JiraErrorView::InvalidUrl(e)),
    }
}

/// The fields of a ticket that a search asks for.
pub open spec fn search_fields() -> Seq<Seq<char>> {
    seq!["summary"@, "description"@, "labels"@, "reporter"@, "customfield_10000"@]
}

/// The endpoint for one ticket.
pub open spec fn issue_endpoint(key: Seq<char>) -> Seq<char> {
    "/rest/api/2/issue/"@ + key
}

/// The request for the tickets that match a filter.
pub open spec fn search_request(
    site: (Seq<char>, Seq<char>),
    jql: Seq<char>,
    max_results: u32,
) -> Result<JiraRequestView, JiraErrorView> {
    request_to(
        site,
        "/rest/api/2/search"@,
        HttpMethod::Post,
        RequestBodyView::Search { jql, max_results, fields: search_fields() },
    )
}

/// The request to add a comment to a ticket.
pub open spec fn comment_request(
    site: (Seq<char>, Seq<char>),
    key: Seq<char>,
    body: Seq<char>,
) -> Result<JiraRequestView, JiraErrorView> {
    request_to(
        site,
        issue_endpoint(key) + "/comment"@,
        HttpMethod::Post,
        RequestBodyView::Comment { body },
    )
}

/// The request to change the status of a ticket.
pub open spec fn transition_request(
    site: (Seq<char>, Seq<char>),
    key: Seq<char>,
    id: Seq<char>,
) -> Result<JiraRequestView, JiraErrorView> {
    request_to(
        site,
        issue_endpoint(key) + "/transitions"@,
        HttpMethod::Post,
        RequestBodyView::Transition { id },
    )
}

/// The request to add a label to a ticket, or to remove it.
pub open spec fn label_request(
    site: (Seq<char>, Seq<char>),
    key: Seq<char>,
    add: bool,
    label: Seq<char>,
) -> Result<JiraRequestView, JiraErrorView> {
    let op = if add {
        "add"@
    } else {
        "remove"@
    };
    request_to(site, issue_endpoint(key), HttpMethod::Put, RequestBodyView::Label { op, label })
}

/// Makes the requests to a Jira site.
#[derive(Clone)]
pub struct JiraClient {
    base_url: String,
    base_path: String,
    pub auth: JiraAuth,
    pub backoff: BackoffPolicy,
}

impl JiraClient {
    /// The URL of the site and its path.
    pub closed spec fn site(self) -> (Seq<char>, Seq<char>) {
        (self.base_url@, self.base_path@)
    }

    /// Whether the URL of the site is of a length that addresses can be made
    /// from.
    pub open spec fn short(self) -> bool {
        self.site().0.len() <= MAX_URL_LEN && self.site().1.len() < MAX_URL_LEN
    }

    /// The credentials for the site.
    pub closed spec fn credentials(self) -> JiraAuth {
        self.auth
    }

    /// The retries.
    pub closed spec fn retries(self) -> BackoffPolicy {
        self.backoff
    }

    /// A client for the site `base_url`, with the usual retries.
    pub fn new(base_url: &str, auth: JiraAuth) -> (r: Result<JiraClient, JiraError>)
        ensures
            match r {
                Ok(c) => parsed_url(base_url@) == Ok::<_, Seq<char>>(c.site()) && c.credentials() == auth
                    && c.retries() == (BackoffPolicy {
                    max_retries: 5,
                    base_delay_ms: 500,
                    max_delay_ms: 30_000,
                }),
                Err(e) => parsed_url(base_url@) matches Err(m) && e@ == JiraErrorView::InvalidUrl(
                    m,
                ),
            },
    {
        JiraClient::with_backoff(base_url, auth, BackoffPolicy::default())
    }

    /// A client for the site `base_url`.
    pub fn with_backoff(base_url: &str, auth: JiraAuth, backoff: BackoffPolicy) -> (r: Result<
        JiraClient,
        JiraError,
    >)
        ensures
            match r {
                Ok(c) => parsed_url(base_url@) == Ok::<_, Seq<char>>(c.site()) && c.credentials() == auth
                    && c.retries() == backoff,
                Err(e) => parsed_url(base_url@) matches Err(m) && e@ == JiraErrorView::InvalidUrl(
                    m,
                ),
            },
    {
        match parse_url(base_url) {
            Ok((url, path)) => Ok(JiraClient { base_url: url, base_path: path, auth, backoff }),
            Err(e) => Err(JiraError::InvalidUrl(e)),
        }
    }

    /// Whether the URL of the site is of a length that addresses can be made
    /// from.
    pub fn is_short(&self) -> (r: bool)
        ensures
            r == self.short(),
    {
        self.base_url.as_str().unicode_len() <= MAX_URL_LEN
            && self.base_path.as_str().unicode_len() < MAX_URL_LEN
    }

    /// The address of an endpoint.
    pub fn url(&self, endpoint: &str) -> (r: Result<String, JiraError>)
        requires
            self.short(),
        ensures
            match r {
                Ok(u) => endpoint_url(self.site().0, self.site().1, endpoint@) == Ok::<
                    _,
                    Seq<char>,
                >(u@),
                Err(e) => endpoint_url(self.site().0, self.site().1, endpoint@) matches Err(m)
                    && e@ == JiraErrorView::InvalidUrl(m),
            },
    {
        let trimmed: String = strip_slashes(endpoint);
        let base: String = directory_of(self.base_url.as_str(), self.base_path.as_str());
        match join_url(base.as_str(), trimmed.as_str()) {
            Ok(u) => Ok(u),
            Err(e) => Err(JiraError::InvalidUrl(e)),
        }
    }

    /// The request to an endpoint.
    fn request(&self, endpoint: &str, method: HttpMethod, body: RequestBody) -> (r: Result<
        JiraRequest,
        JiraError,
    >)
        requires
            self.short(),
        ensures
            made_view(r) == request_to(self.site(), endpoint@, method, body@),
    {
        match self.url(endpoint) {
            Ok(url) => Ok(JiraRequest { method, url, body }),
            Err(e) => Err(e),
        }
    }

    /// The request for the tickets that match a filter.
    pub fn search_jql(&self, jql: &str, max_results: u32) -> (r: Result<JiraRequest, JiraError>)
        requires
            self.short(),
        ensures
            made_view(r) == search_request(self.site(), jql@, max_results),
    {
        let fields: Vec<String> = vec![
            text::owned("summary"),
            text::owned("description"),
            text::owned("labels"),
            text::owned("reporter"),
            text::owned("customfield_10000"),
        ];
        proof {
            assert(text::texts(fields@) =~= search_fields());
        }
        self.request(
            "/rest/api/2/search",
            HttpMethod::Post,
            RequestBody::Search { jql: text::owned(jql), max_results, fields },
        )
    }

    /// The request to add a comment to a ticket.
    pub fn add_comment(&self, key: &str, body: &str) -> (r: Result<JiraRequest, JiraError>)
        requires
            self.short(),
        ensures
            made_view(r) == comment_request(self.site(), key@, body@),
    {
        let endpoint: String = text::cat3("/rest/api/2/issue/", key, "/comment");
        self.request(
            endpoint.as_str(),
            HttpMethod::Post,
            RequestBody::Comment { body: text::owned(body) },
        )
    }

    /// The request to change the status of a ticket.
    pub fn transition(&self, key: &str, transition_id: &str) -> (r: Result<JiraRequest, JiraError>)
        requires
            self.short(),
        ensures
            made_view(r) == transition_request(self.site(), key@, transition_id@),
    {
        let endpoint: String = text::cat3("/rest/api/2/issue/", key, "/transitions");
        self.request(
            endpoint.as_str(),
            HttpMethod::Post,
            RequestBody::Transition { id: text::owned(transition_id) },
        )
    }

    /// The request to add a label to a ticket.
    pub fn add_label(&self, key: &str, label: &str) -> (r: Result<JiraRequest, JiraError>)
        requires
            self.short(),
        ensures
            made_view(r) == label_request(self.site(), key@, true, label@),
    {
        self.update_label(key, "add", label)
    }

    /// The request to remove a label from a ticket.
    pub fn remove_label(&self, key: &str, label: &str) -> (r: Result<JiraRequest, JiraError>)
        requires
            self.short(),
        ensures
            made_view(r) == label_request(self.site(), key@, false, label@),
    {
        self.update_label(key, "remove", label)
    }

    /// The request to change a label of a ticket.
    fn update_label(&self, key: &str, op: &str, label: &str) -> (r: Result<JiraRequest, JiraError>)
        requires
            self.short(),
        ensures
            made_view(r) == request_to(
                self.site(),
                issue_endpoint(key@),
                HttpMethod::Put,
                RequestBodyView::Label { op: op@, label: label@ },
            ),
    {
        let endpoint: String = text::cat2("/rest/api/2/issue/", key);
        self.request(
            endpoint.as_str(),
            HttpMethod::Put,
            RequestBody::Label { op: text::owned(op), label: text::owned(label) },
        )
    }
}

// ---------------------------------------------------------------------
// Tickets
// ---------------------------------------------------------------------

/// The description of a ticket, by the kind of JSON value that it is.
#[derive(Debug, PartialEq)]
pub enum RawDescription {
    Null,
    Text(String),
    /// Any other value, as JSON text.
    Other(String),
}

/// Who reported a ticket.
#[derive(Debug, PartialEq)]
pub struct RawReporter {
    pub display_name: Option<String>,
    pub account_id: Option<String>,
}

/// A ticket as a search returns it.
#[derive(Debug, PartialEq)]
pub struct RawIssue {
    pub key: String,
    pub summary: Option<String>,
    pub description: Option<RawDescription>,
    pub labels: Vec<String>,
    pub reporter: Option<RawReporter>,
}

/// The text of a description.
pub open spec fn description_text(d: Option<RawDescription>) -> Seq<char> {
    match d {
        None => Seq::empty(),
        Some(RawDescription::Null) => Seq::empty(),
        Some(RawDescription::Text(s)) => s@,
        Some(RawDescription::Other(s)) => s@,
    }
}

/// The name of a reporter, or else the account.
pub open spec fn reporter_text(r: Option<RawReporter>) -> Option<Seq<char>> {
    match r {
        None => None,
        Some(r) => match r.display_name {
            Some(n) => Some(n@),
            None => text::text_option(r.account_id),
        },
    }
}

/// What is kept of a ticket.
pub open spec fn issue_payload(i: RawIssue) -> PayloadView {
    PayloadView {
        key: i.key@,
        title: match i.summary {
            Some(s) => s@,
            None => Seq::empty(),
        },
        description: description_text(i.description),
        acceptance_criteria: Seq::empty(),
        labels: text::texts(i.labels@),
        reporter: reporter_text(i.reporter),
    }
}

/// The text of a description.
pub fn description_to_string(d: Option<RawDescription>) -> (r: String)
    ensures
        r@ == description_text(d),
{
    match d {
        None => String::new(),
        Some(RawDescription::Null) => String::new(),
        Some(RawDescription::Text(s)) => s,
        Some(RawDescription::Other(s)) => s,
    }
}

/// What is kept of a ticket.
pub fn payload_from_issue(issue: RawIssue) -> (r: JiraTicketPayload)
    ensures
        r@ == issue_payload(issue),
{
    let title: String = match issue.summary {
        Some(s) => s,
        None => String::new(),
    };
    let reporter: Option<String> = match issue.reporter {
        None => None,
        Some(r) => match r.display_name {
            Some(n) => Some(n),
            None => r.account_id,
        },
    };
    JiraTicketPayload {
        key: issue.key,
        title,
        description: description_to_string(issue.description),
        acceptance_criteria: String::new(),
        labels: issue.labels,
        reporter,
    }
}

/// What is kept of the tickets that a search returned, in their order.
pub fn payloads_from_issues(issues: Vec<RawIssue>) -> (r: Vec<JiraTicketPayload>)
    ensures
        payload_views(r@) == issues@.map_values(|i: RawIssue| issue_payload(i)),
{
    let ghost all = issues@.map_values(|i: RawIssue| issue_payload(i));
    let mut out: Vec<JiraTicketPayload> = Vec::new();
    let mut rest: Vec<RawIssue> = issues;
    let ghost n = rest@.len();
    while rest.len() > 0
        invariant
            n == issues@.len(),
            out@.len() + rest@.len() == n,
            rest@ == issues@.skip(out@.len() as int),
            all == issues@.map_values(|i: RawIssue| issue_payload(i)),
            payload_views(out@) == all.take(out@.len() as int),
        decreases rest.len(),
    {
        let ghost o = out@;
        let first: RawIssue = rest.remove(0);
        let ghost f = first;
        out.push(payload_from_issue(first));
        proof {
            assert(f == issues@[o.len() as int]);
            assert(payload_views(out@) =~= payload_views(o).push(issue_payload(f)));
            assert(all.take(o.len() as int + 1) =~= all.take(o.len() as int).push(all[o.len() as int]));
            assert(rest@ =~= issues@.skip(out@.len() as int));
        }
    }
    proof {
        assert(all.take(all.len() as int) =~= all);
    }
    out
}

// ---------------------------------------------------------------------
// What requests come to
// ---------------------------------------------------------------------

/// The first wait is the base; each further one is twice the one before, up to
/// the limit, and from the twentieth on they stay as they are.
pub proof fn waits_double_up_to_the_limit(p: BackoffPolicy, attempt: u32)
    requires
        attempt < u32::MAX,
    ensures
        wait_after(p, 0) == (if p.base_delay_ms < p.max_delay_ms {
            p.base_delay_ms
        } else {
            p.max_delay_ms
        }) * 1_000_000,
        attempt < 20 ==> wait_after(p, (attempt + 1) as u32) == (if 2 * wait_after(p, attempt)
            < p.max_delay_ms * 1_000_000 {
            2 * wait_after(p, attempt)
        } else {
            p.max_delay_ms * 1_000_000
        }),
        attempt >= 20 ==> wait_after(p, (attempt + 1) as u32) == wait_after(p, attempt),
{
    lemma_pow2_unfold_at_zero();
    wait_is_whole(p, 0);
    assert(p.base_delay_ms * pow2(0) == p.base_delay_ms) by (nonlinear_arith)
        requires
            pow2(0) == 1,
    ;
    wait_is_whole(p, attempt);
    wait_is_whole(p, (attempt + 1) as u32);
    if attempt < 20 {
        lemma_pow2_unfold((attempt + 1) as nat);
        let x = p.base_delay_ms * pow2(attempt as nat);
        assert(p.base_delay_ms * (2 * pow2(attempt as nat)) == 2 * x) by (nonlinear_arith)
            requires
                x == p.base_delay_ms * pow2(attempt as nat),
        ;
    }
}

/// Two to the power of zero is one.
proof fn lemma_pow2_unfold_at_zero()
    ensures
        pow2(0) == 1,
{
    vstd::arithmetic::power2::lemma2_to64();
}

/// The wait is the smaller of two numbers of milliseconds, and fits.
proof fn wait_is_whole(p: BackoffPolicy, attempt: u32)
    ensures
        wait_after(p, attempt) == smaller(
            p.base_delay_ms * pow2(smaller(attempt as int, 20) as nat),
            p.max_delay_ms as int,
        ) * 1_000_000,
        0 <= p.base_delay_ms * pow2(smaller(attempt as int, 20) as nat),
{
    let ms = smaller(
        p.base_delay_ms * pow2(smaller(attempt as int, 20) as nat),
        p.max_delay_ms as int,
    );
    assert(0 <= p.base_delay_ms * pow2(smaller(attempt as int, 20) as nat)) by (nonlinear_arith)
        requires
            0 <= p.base_delay_ms,
            0 <= pow2(smaller(attempt as int, 20) as nat),
    ;
    assert(0 <= ms <= p.max_delay_ms);
}

/// A request is done exactly where the status is a success. It is tried again
/// exactly where there was no answer, or one that says to slow down or that the
/// site itself failed, and tries are left. Otherwise it fails, and the error
/// tells what the last answer was.
pub proof fn only_passing_failures_are_retried(
    r: RequestStep,
    p: BackoffPolicy,
    attempt: u32,
    reply: HttpReply,
)
    requires
        step_after(r, p, attempt, reply),
    ensures
        match reply {
            HttpReply::Response { status, body } => {
                let passing = status == 429 || (status >= 500 && status < 600);
                &&& r is Done <==> status >= 200 && status < 300
                &&& r is Retry <==> passing && attempt < p.max_retries
                &&& r matches RequestStep::Fail(e) ==> {
                    &&& status == 401 || status == 403 <==> e is Unauthorized
                    &&& status != 401 && status != 403 && !passing ==> (
                    e matches JiraError::Client { status: s, body: b } && s == status && b@
                        == body@)
                    &&& status == 429 ==> (e matches JiraError::RateLimited { body: b } && b@
                        == body@)
                    &&& status != 429 && passing ==> (e matches JiraError::Server {
                        status: s,
                        body: b,
                    } && s == status && b@ == body@)
                }
            },
            HttpReply::Failed { message } => {
                &&& !(r is Done)
                &&& r is Retry <==> attempt < p.max_retries
                &&& r matches RequestStep::Fail(e) ==> (e matches JiraError::Network(m) && m@
                    == message@)
            },
        },
        r matches RequestStep::Retry { attempt: next, delay } ==> next == attempt + 1 && next
            <= p.max_retries && delay == wait_after(p, attempt),
{
}

/// Slashes in front are dropped, and nothing else.
pub proof fn slashes_in_front_are_dropped(s: Seq<char>) -> (n: int)
    ensures
        0 <= n <= s.len(),
        without_slashes(s) == s.skip(n),
        forall|k: int| 0 <= k < n ==> (#[trigger] s[k]) == '/',
        n < s.len() ==> s[n] != '/',
    decreases s.len(),
{
    if s.len() > 0 && s[0] == '/' {
        let t = s.skip(1);
        let m = slashes_in_front_are_dropped(t);
        assert(t.skip(m) =~= s.skip(m + 1));
        assert forall|k: int| 0 <= k < m + 1 implies (#[trigger] s[k]) == '/' by {
            if k > 0 {
                assert(t[k - 1] == s[k]);
            }
        }
        if m + 1 < s.len() {
            assert(t[m] == s[m + 1]);
        }
        m + 1
    } else {
        assert(s.skip(0) =~= s);
        0
    }
}

/// The request `q` goes to this address below the site.
pub open spec fn goes_to(
    q: JiraRequestView,
    site: (Seq<char>, Seq<char>),
    address: Seq<char>,
) -> bool {
    joined_url(site_directory(site.0, site.1), address) == Ok::<Seq<char>, Seq<char>>(q.url)
}

/// Each request goes to the address of what it is about, with the method that
/// the site wants there, and says what was asked and nothing else.
pub proof fn requests_say_what_was_asked(
    site: (Seq<char>, Seq<char>),
    key: Seq<char>,
    words: Seq<char>,
    n: u32,
    add: bool,
)
    ensures
        search_request(site, words, n) matches Ok(q) ==> {
            &&& goes_to(q, site, "rest/api/2/search"@)
            &&& q.method == HttpMethod::Post
            &&& q.body matches RequestBodyView::Search { jql, max_results, fields } && jql == words
                && max_results == n && fields =~= seq![
                "summary"@,
                "description"@,
                "labels"@,
                "reporter"@,
                "customfield_10000"@,
            ]
        },
        comment_request(site, key, words) matches Ok(q) ==> {
            &&& goes_to(q, site, "rest/api/2/issue/"@ + key + "/comment"@)
            &&& q.method == HttpMethod::Post
            &&& q.body == RequestBodyView::Comment { body: words }
        },
        transition_request(site, key, words) matches Ok(q) ==> {
            &&& goes_to(q, site, "rest/api/2/issue/"@ + key + "/transitions"@)
            &&& q.method == HttpMethod::Post
            &&& q.body == RequestBodyView::Transition { id: words }
        },
        label_request(site, key, add, words) matches Ok(q) ==> {
            &&& goes_to(q, site, "rest/api/2/issue/"@ + key)
            &&& q.method == HttpMethod::Put
            &&& add ==> q.body == RequestBodyView::Label { op: "add"@, label: words }
            &&& !add ==> q.body == RequestBodyView::Label { op: "remove"@, label: words }
        },
        search_request(site, words, n) matches Err(e) ==> e is InvalidUrl,
        comment_request(site, key, words) matches Err(e) ==> e is InvalidUrl,
        transition_request(site, key, words) matches Err(e) ==> e is InvalidUrl,
        label_request(site, key, add, words) matches Err(e) ==> e is InvalidUrl,
{
    reveal_strlit("/rest/api/2/search");
    reveal_strlit("rest/api/2/search");
    reveal_strlit("/rest/api/2/issue/");
    reveal_strlit("rest/api/2/issue/");
    one_slash_is_dropped("/rest/api/2/search"@, "rest/api/2/search"@);
    let front = "/rest/api/2/issue/"@;
    let bare = "rest/api/2/issue/"@;
    assert(front.skip(1) =~= bare);
    one_slash_is_dropped(issue_endpoint(key), bare + key);
    one_slash_is_dropped(issue_endpoint(key) + "/comment"@, bare + key + "/comment"@);
    one_slash_is_dropped(issue_endpoint(key) + "/transitions"@, bare + key + "/transitions"@);
}

/// A single slash in front is dropped.
proof fn one_slash_is_dropped(s: Seq<char>, t: Seq<char>)
    requires
        s.len() == t.len() + 1,
        s[0] == '/',
        t.len() > 0,
        t[0] != '/',
        forall|k: int| 0 <= k < t.len() ==> s[k + 1] == #[trigger] t[k],
    ensures
        without_slashes(s) == t,
{
    reveal_with_fuel(without_slashes, 2);
    assert(s.skip(1) =~= t);
}

/// What is kept of a ticket is what the site says of it: the key, the title and
/// the description, empty where there is none, the labels, and the reporter by
/// name, or else by account.
pub proof fn tickets_are_kept_as_told(i: RawIssue)
    ensures
        ({
            let p = issue_payload(i);
            &&& p.key == i.key@
            &&& i.summary matches Some(s) ==> p.title == s@
            &&& i.summary is None ==> p.title.len() == 0
            &&& i.description is None || i.description == Some(RawDescription::Null)
                ==> p.description.len() == 0
            &&& i.description matches Some(RawDescription::Text(s)) ==> p.description == s@
            &&& i.description matches Some(RawDescription::Other(s)) ==> p.description == s@
            &&& p.labels == text::texts(i.labels@)
            &&& i.reporter is None ==> p.reporter is None
            &&& i.reporter matches Some(r) ==> (r.display_name matches Some(n) ==> p.reporter
                == Some(n@)) && (r.display_name is None ==> p.reporter == text::text_option(
                r.account_id,
            ))
        }),
{
}

} // verus!
