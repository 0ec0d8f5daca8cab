//! What a command of the command line prints, and the tables it prints.

use vstd::prelude::*;
use vstd::string::*;
use vstd::utf8::{decode_utf8, encode_utf8, encode_utf8_decode_utf8, is_char_boundary};

use crate::text;

verus! {

/// What a command prints, and its exit code.
#[derive(Debug, PartialEq)]
pub struct Reply {
    pub code: i32,
    pub out: String,
    pub err: String,
}

/// Whether a reply says this and nothing else.
pub open spec fn says(r: Reply, code: int, out: Seq<char>, err: Seq<char>) -> bool {
    r.code == code && r.out@ == out && r.err@ == err
}

impl Reply {
    /// A success that prints `out`.
    pub fn success(out: String) -> (r: Reply)
        ensures
            says(r, 0, out@, Seq::empty()),
    {
        let err: String = String::new();
        proof {
            assert(err@ =~= Seq::<char>::empty());
        }
        Reply { code: 0, out, err }
    }

    /// A failure that complains with `err`.
    pub fn failure(err: String) -> (r: Reply)
        ensures
            says(r, 1, Seq::empty(), err@),
    {
        let out: String = String::new();
        proof {
            assert(out@ =~= Seq::<char>::empty());
        }
        Reply { code: 1, out, err }
    }
}

/// The failure for an error that the daemon reports.
pub fn daemon_error(message: &str) -> (r: Reply)
    ensures
        says(r, 1, Seq::empty(), "Error: "@ + message@ + "\n"@),
{
    Reply::failure(text::cat3("Error: ", message, "\n"))
}

/// The failure for a daemon that could not be asked.
pub fn no_answer(error: &str) -> (r: Reply)
    ensures
        says(r, 1, Seq::empty(), error@ + "\n"@),
{
    Reply::failure(text::cat2(error, "\n"))
}

/// The failure for an answer that does not fit the question.
pub fn unexpected_answer() -> (r: Reply)
    ensures
        says(r, 1, Seq::empty(), "Unexpected response from daemon.\n"@),
{
    Reply::failure(text::owned("Unexpected response from daemon.\n"))
}

/// Whether a text can be cut behind its first 37 bytes, if it is too long for
/// a table.
pub open spec fn clippable(s: Seq<char>) -> bool {
    encode_utf8(s).len() > 40 ==> is_char_boundary(encode_utf8(s), 37)
}

/// A text as it stands in a table: cut where it is longer than 40 bytes, and
/// on one line.
pub open spec fn clipped(s: Seq<char>) -> Seq<char> {
    text::with_char(
        if encode_utf8(s).len() > 40 {
            decode_utf8(encode_utf8(s).subrange(0, 37)) + "..."@
        } else {
            s
        },
        '\n',
        ' ',
    )
}

/// Whether a text can be cut for a table.
pub fn can_clip(s: &str) -> (r: bool)
    ensures
        r == clippable(s@),
{
    s.as_bytes().len() <= 40 || s.is_char_boundary(37)
}

/// A text as it stands in a table.
pub fn clip(s: &str) -> (r: String)
    requires
        clippable(s@),
    ensures
        r@ == clipped(s@),
{
    if s.as_bytes().len() > 40 {
        let (head, _) = s.split_at(37);
        proof {
            encode_utf8_decode_utf8(head@);
        }
        let cut: String = text::cat2(head, "...");
        text::replace_char(cut.as_str(), '\n', ' ')
    } else {
        text::replace_char(s, '\n', ' ')
    }
}

/// A row of a table of three columns and a text.
pub open spec fn row_text(
    a: Seq<char>,
    a_width: nat,
    b: Seq<char>,
    b_width: nat,
    c: Seq<char>,
    d: Seq<char>,
) -> Seq<char> {
    text::padded(a, a_width) + " "@ + text::padded(b, b_width) + " "@ + text::padded(c, 13) + " "@
        + d + "\n"@
}

/// A row of a table of three columns and a text.
pub fn table_row(a: &str, a_width: usize, b: &str, b_width: usize, c: &str, d: &str) -> (r: String)
    ensures
        r@ == row_text(a@, a_width as nat, b@, b_width as nat, c@, d@),
{
    let first: String = text::pad(a, a_width);
    let second: String = text::pad(b, b_width);
    let third: String = text::pad(c, 13);
    let mut out: String = text::cat6(first.as_str(), " ", second.as_str(), " ", third.as_str(), " ");
    out.append(d);
    out.append("\n");
    out
}

} // verus!
