//! File paths as text.

use vstd::prelude::*;
use vstd::string::*;

use crate::text;

verus! {

/// The path `rel` as seen from `base`: an absolute `rel` replaces `base`,
/// any other is put behind it, with one slash between the two.
pub open spec fn joined_path(base: Seq<char>, rel: Seq<char>) -> Seq<char> {
    if rel.len() > 0 && rel[0] == '/' {
        rel
    } else if base.len() == 0 || base.last() == '/' {
        base + rel
    } else {
        base.push('/') + rel
    }
}

/// The path `rel` as seen from `base`.
pub fn join_path(base: &str, rel: &str) -> (r: String)
    ensures
        r@ == joined_path(base@, rel@),
{
    if rel.unicode_len() > 0 && rel.get_char(0) == '/' {
        text::owned(rel)
    } else if base.unicode_len() == 0 || text::ends_with_char(base, '/') {
        text::cat2(base, rel)
    } else {
        let mut out: String = text::owned(base);
        out.push('/');
        out.append(rel);
        out
    }
}

/// A relative path is seen from the base, with one slash between the two; an
/// absolute path is itself.
pub proof fn relative_paths_lie_below(base: Seq<char>, rel: Seq<char>)
    requires
        base.len() > 0,
        base.last() != '/',
        rel.len() > 0,
        rel[0] != '/',
    ensures
        joined_path(base, rel) == base + seq!['/'] + rel,
        joined_path(base + seq!['/'], rel) == base + seq!['/'] + rel,
        joined_path(base, seq!['/'] + rel) == seq!['/'] + rel,
        joined_path(Seq::<char>::empty(), rel) == rel,
{
    assert(base.push('/') + rel =~= base + seq!['/'] + rel);
    assert((base + seq!['/']).last() == '/');
    assert(Seq::<char>::empty() + rel =~= rel);
    assert((seq!['/'] + rel)[0] == '/');
}

} // verus!
