//! Credentials for a Jira site: HTTP Basic with an account and an API token.

use vstd::prelude::*;
use vstd::string::*;
use vstd::utf8::encode_utf8;

use super::error::{JiraError, JiraErrorView};
use crate::text;

verus! {

/// The letter of the standard Base64 alphabet for six bits.
pub open spec fn base64_letter(n: int) -> char {
    if n < 26 {
        ('A' as int + n) as char
    } else if n < 52 {
        ('a' as int + (n - 26)) as char
    } else if n < 62 {
        ('0' as int + (n - 52)) as char
    } else if n == 62 {
        '+'
    } else {
        '/'
    }
}

/// Base64 with the standard alphabet and padding: each three bytes give four
/// letters; the last one or two bytes are filled up with `=`.
pub open spec fn base64_text(b: Seq<u8>) -> Seq<char>
    decreases b.len(),
{
    if b.len() == 0 {
        Seq::empty()
    } else if b.len() == 1 {
        seq![base64_letter(b[0] as int / 4), base64_letter(b[0] as int % 4 * 16), '=', '=']
    } else {
        let first = base64_letter(b[0] as int / 4);
        let second = base64_letter(b[0] as int % 4 * 16 + b[1] as int / 16);
        if b.len() == 2 {
            seq![first, second, base64_letter(b[1] as int % 16 * 4), '=']
        } else {
            seq![
                first,
                second,
                base64_letter(b[1] as int % 16 * 4 + b[2] as int / 64),
                base64_letter(b[2] as int % 64),
            ] + base64_text(b.skip(3))
        }
    }
}

/// `base64::Engine::encode` of the engine `general_purpose::STANDARD`: the
/// standard alphabet, with padding. A slice has at most `isize::MAX` bytes, so
/// the length of the result does not overflow.
#[verifier::external_body]
fn base64_encode(bytes: &[u8]) -> (r: String)
    ensures
        r@ == base64_text(bytes@),
{
    base64::Engine::encode(&base64::engine::general_purpose::STANDARD, bytes)
}

/// Credentials for a Jira site. The token leaves it in the header alone.
pub struct JiraAuth {
    pub email: String,
    token: String,
}

/// The header for an account and its token.
pub open spec fn basic_header(email: Seq<char>, token: Seq<char>) -> Seq<char> {
    "Basic "@ + base64_text(encode_utf8(email + ":"@ + token))
}

/// How the credentials of an account are shown.
pub open spec fn shown_auth(email: Seq<char>) -> Seq<char> {
    "JiraAuth { email: "@ + text::quoted(email) + ", token: \"<redacted>\" }"@
}

/// Whether `r` are the credentials of an account with the token that a variable
/// of the environment holds.
pub open spec fn credentials_are(
    r: Result<JiraAuth, JiraError>,
    email: Seq<char>,
    token_env: Seq<char>,
    value: Option<Seq<char>>,
) -> bool {
    match r {
        Ok(a) => {
            &&& value is Some
            &&& text::trimmed(value->0).len() > 0
            &&& a.email_text() == email
            &&& a.token_text() == value->0
        },
        Err(e) => {
            &&& value is None || text::trimmed(value->0).len() == 0
            &&& e@ == (JiraErrorView::EnvMissing { var: token_env })
        },
    }
}

impl JiraAuth {
    /// The account.
    pub closed spec fn email_text(self) -> Seq<char> {
        self.email@
    }

    /// The API token.
    pub closed spec fn token_text(self) -> Seq<char> {
        self.token@
    }

    /// Credentials with the given token.
    pub fn new(email: String, token: String) -> (r: JiraAuth)
        ensures
            r.email_text() == email@,
            r.token_text() == token@,
    {
        JiraAuth { email, token }
    }

    /// Credentials with the token `value`, which is what the environment
    /// variable `token_env` holds. A blank token counts as none.
    pub fn from_env(email: String, token_env: &str, value: Option<String>) -> (r: Result<
        JiraAuth,
        JiraError,
    >)
        ensures
            credentials_are(r, email@, token_env@, text::text_option(value)),
    {
        match value {
            Some(token) => {
                if text::trim(token.as_str()).unicode_len() == 0 {
                    Err(JiraError::EnvMissing { var: text::owned(token_env) })
                } else {
                    Ok(JiraAuth::new(email, token))
                }
            },
            None => Err(JiraError::EnvMissing { var: text::owned(token_env) }),
        }
    }

    /// The value of the `Authorization` header.
    pub fn header_value(&self) -> (r: String)
        ensures
            r@ == basic_header(self.email_text(), self.token_text()),
    {
        let raw: String = text::cat3(self.email.as_str(), ":", self.token.as_str());
        let encoded: String = base64_encode(raw.as_str().as_bytes());
        text::cat2("Basic ", encoded.as_str())
    }

    /// The credentials without the token, to be logged.
    pub fn debug_text(&self) -> (r: String)
        ensures
            r@ == shown_auth(self.email_text()),
    {
        let email: String = text::quote(self.email.as_str());
        text::cat3("JiraAuth { email: ", email.as_str(), ", token: \"<redacted>\" }")
    }
}

impl Clone for JiraAuth {
    fn clone(&self) -> (r: Self)
        ensures
            r.email_text() == self.email_text(),
            r.token_text() == self.token_text(),
    {
        JiraAuth { email: self.email.clone(), token: self.token.clone() }
    }
}

/// There are credentials exactly where the variable is set and holds more than
/// white space; the token is what it holds, and otherwise the variable is named.
pub proof fn tokens_come_from_the_environment(
    r: Result<JiraAuth, JiraError>,
    email: Seq<char>,
    token_env: Seq<char>,
    value: Option<Seq<char>>,
)
    requires
        credentials_are(r, email, token_env, value),
    ensures
        r is Ok <==> value is Some && exists|k: int|
            0 <= k < value->0.len() && !text::white(#[trigger] value->0[k]),
        r matches Ok(a) ==> a.email_text() == email && a.token_text() == value->0,
        r matches Err(e) ==> e@ == (JiraErrorView::EnvMissing { var: token_env }),
{
    if let Some(v) = value {
        let (a, b) = text::trimming_drops_white(v);
        if a < b {
            assert(!text::white(v[a]));
        } else {
            assert forall|k: int| 0 <= k < v.len() implies text::white(#[trigger] v[k]) by {}
        }
    }
}

/// The header tells account and token, parted by a colon, in the basic scheme;
/// what is logged tells the account alone.
pub proof fn headers_tell_account_and_token(email: Seq<char>, token: Seq<char>)
    ensures
        basic_header(email, token) == "Basic "@ + base64_text(
            encode_utf8(email + seq![':'] + token),
        ),
        shown_auth(email) == "JiraAuth { email: "@ + text::quoted(email)
            + ", token: \"<redacted>\" }"@,
{
    reveal_strlit(":");
    assert(":"@ =~= seq![':']);
}

} // verus!
