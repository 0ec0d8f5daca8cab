//! Text as a sequence of characters.
//!
//! A `&str` or a `String` is modelled by its view, the sequence of its
//! characters. The spec functions here say what trimming, searching, splitting
//! and joining mean on such sequences; the executable functions beside them
//! are proved to compute exactly that.

use vstd::prelude::*;
use vstd::string::*;

verus! {

/// `String::push`: the character goes behind everything already there.
pub assume_specification[ String::push ](s: &mut String, c: char)
    ensures
        final(s)@ == old(s)@.push(c),
;

// ---------------------------------------------------------------------
// Characters
// ---------------------------------------------------------------------

/// The Unicode `White_Space` property.
pub open spec fn white(c: char) -> bool {
    ||| 0x9 <= c as int <= 0xd
    ||| c as int == 0x20
    ||| c as int == 0x85
    ||| c as int == 0xa0
    ||| c as int == 0x1680
    ||| 0x2000 <= c as int <= 0x200a
    ||| c as int == 0x2028
    ||| c as int == 0x2029
    ||| c as int == 0x202f
    ||| c as int == 0x205f
    ||| c as int == 0x3000
}

/// Whether `c` is white space.
pub fn is_white(c: char) -> (r: bool)
    ensures
        r == white(c),
{
    let n: u32 = c as u32;
    (0x9 <= n && n <= 0xd) || n == 0x20 || n == 0x85 || n == 0xa0 || n == 0x1680 || (0x2000 <= n
        && n <= 0x200a) || n == 0x2028 || n == 0x2029 || n == 0x202f || n == 0x205f || n == 0x3000
}

/// An ASCII decimal digit.
pub open spec fn digit(c: char) -> bool {
    '0' <= c <= '9'
}

/// Whether `c` is an ASCII decimal digit.
pub fn is_digit(c: char) -> (r: bool)
    ensures
        r == digit(c),
{
    '0' <= c && c <= '9'
}

/// An ASCII letter or digit.
pub open spec fn alphanumeric(c: char) -> bool {
    ||| digit(c)
    ||| 'a' <= c <= 'z'
    ||| 'A' <= c <= 'Z'
}

/// Whether `c` is an ASCII letter or digit.
pub fn is_alphanumeric(c: char) -> (r: bool)
    ensures
        r == alphanumeric(c),
{
    ('0' <= c && c <= '9') || ('a' <= c && c <= 'z') || ('A' <= c && c <= 'Z')
}

/// `c` with an upper-case ASCII letter replaced by its lower-case form.
pub open spec fn lower_char(c: char) -> char {
    if 'A' <= c <= 'Z' {
        (c as u32 + 32) as char
    } else {
        c
    }
}

// ---------------------------------------------------------------------
// Sequences of characters and strings
// ---------------------------------------------------------------------

/// The characters of `s`.
pub fn chars_of(s: &str) -> (r: Vec<char>)
    ensures
        r@ == s@,
{
    let mut out: Vec<char> = Vec::new();
    for c in it: s.chars()
        invariant
            out@ == it.seq().take(it.index() as int),
            it.seq() == s@,
    {
        proof {
            assert(it.seq().take(it.index() + 1) =~= it.seq().take(it.index() as int).push(
                it.seq()[it.index() as int],
            ));
        }
        out.push(c);
    }
    proof {
        assert(s@.take(s@.len() as int) =~= s@);
    }
    out
}

/// The string with the characters `cs[from..to]`.
pub fn string_of(cs: &Vec<char>, from: usize, to: usize) -> (r: String)
    requires
        from <= to <= cs.len(),
    ensures
        r@ == cs@.subrange(from as int, to as int),
{
    let mut out: String = String::new();
    let mut i: usize = from;
    while i < to
        invariant
            from <= i <= to <= cs.len(),
            out@ == cs@.subrange(from as int, i as int),
        decreases to - i,
    {
        out.push(cs[i]);
        i = i + 1;
        proof {
            assert(cs@.subrange(from as int, i as int) =~= cs@.subrange(
                from as int,
                i as int - 1,
            ).push(cs@[i as int - 1]));
        }
    }
    proof {
        assert(out@ =~= cs@.subrange(from as int, to as int));
    }
    out
}

/// An owned copy of `s`.
pub fn owned(s: &str) -> (r: String)
    ensures
        r@ == s@,
{
    s.to_owned()
}

/// Whether two strings hold the same characters.
pub fn same(a: &str, b: &str) -> (r: bool)
    ensures
        r == (a@ == b@),
{
    a.to_owned() == b.to_owned()
}

/// Whether the characters at `at` are those of `pat`.
pub open spec fn occurs_at(s: Seq<char>, pat: Seq<char>, at: int) -> bool {
    &&& 0 <= at
    &&& at + pat.len() <= s.len()
    &&& s.subrange(at, at + pat.len()) == pat
}

/// Whether `s` begins with `pat`.
pub open spec fn begins(s: Seq<char>, pat: Seq<char>) -> bool {
    occurs_at(s, pat, 0)
}

/// Whether `cs` holds `pat` at index `at`.
pub fn chars_occur_at(cs: &Vec<char>, pat: &str, at: usize) -> (r: bool)
    ensures
        r == occurs_at(cs@, pat@, at as int),
{
    let ps: Vec<char> = chars_of(pat);
    if at > cs.len() || ps.len() > cs.len() - at {
        return false;
    }
    let mut i: usize = 0;
    while i < ps.len()
        invariant
            at + ps.len() <= cs.len(),
            i <= ps.len(),
            ps@ == pat@,
            forall|k: int| 0 <= k < i ==> cs@[at + k] == ps@[k],
        decreases ps.len() - i,
    {
        if cs[at + i] != ps[i] {
            proof {
                assert(cs@.subrange(at as int, at + pat@.len())[i as int] != pat@[i as int]);
            }
            return false;
        }
        i = i + 1;
    }
    proof {
        assert(cs@.subrange(at as int, at + pat@.len()) =~= pat@);
    }
    true
}

/// Whether `s` begins with `pat`.
pub fn starts_with(s: &str, pat: &str) -> (r: bool)
    ensures
        r == begins(s@, pat@),
{
    chars_occur_at(&chars_of(s), pat, 0)
}

/// Whether `s` ends with `c`.
pub fn ends_with_char(s: &str, c: char) -> (r: bool)
    ensures
        r == (s@.len() > 0 && s@.last() == c),
{
    let n: usize = s.unicode_len();
    n > 0 && s.get_char(n - 1) == c
}

/// The first index, from `from` on, at which `pat` occurs in `s`.
pub open spec fn find_from(s: Seq<char>, pat: Seq<char>, from: int) -> Option<int>
    decreases s.len() - from + 1,
{
    if from < 0 || from > s.len() {
        None
    } else if occurs_at(s, pat, from) {
        Some(from)
    } else {
        find_from(s, pat, from + 1)
    }
}

/// The first index at which `pat` occurs in `s`.
pub open spec fn find(s: Seq<char>, pat: Seq<char>) -> Option<int> {
    find_from(s, pat, 0)
}

/// An occurrence that `find_from` names is the first one: it is an occurrence,
/// and there is none before it. Where it names none there is none.
pub proof fn find_from_is_first(s: Seq<char>, pat: Seq<char>, from: int)
    requires
        0 <= from,
    ensures
        find_from(s, pat, from) matches Some(i) ==> from <= i && occurs_at(s, pat, i) && forall|j: int|
            from <= j < i ==> !#[trigger] occurs_at(s, pat, j),
        find_from(s, pat, from) is None ==> forall|j: int|
            from <= j ==> !#[trigger] occurs_at(s, pat, j),
    decreases s.len() - from + 1,
{
    if from <= s.len() && !occurs_at(s, pat, from) {
        find_from_is_first(s, pat, from + 1);
    }
}

/// The first index of `pat` in `cs`, from `from` on.
pub fn find_chars(cs: &Vec<char>, pat: &str, from: usize) -> (r: Option<usize>)
    ensures
        r is Some <==> find_from(cs@, pat@, from as int) is Some,
        r matches Some(i) ==> find_from(cs@, pat@, from as int) == Some(i as int) && from <= i && i
            + pat@.len() <= cs.len(),
{
    let mut i: usize = from;
    loop
        invariant
            from <= i,
            find_from(cs@, pat@, from as int) == find_from(cs@, pat@, i as int),
        decreases cs.len() + 1 - i,
    {
        if i > cs.len() {
            return None;
        }
        if chars_occur_at(cs, pat, i) {
            return Some(i);
        }
        if i == cs.len() {
            proof {
                assert(find_from(cs@, pat@, i + 1) is None);
            }
            return None;
        }
        i = i + 1;
    }
}

/// Whether `pat` occurs in `s`.
pub fn contains(s: &str, pat: &str) -> (r: bool)
    ensures
        r == (find(s@, pat@) is Some),
{
    find_chars(&chars_of(s), pat, 0).is_some()
}

/// `s` from `from` on, with each occurrence of `pat` replaced by `to`, from
/// left to right.
pub open spec fn replaced_from(s: Seq<char>, pat: Seq<char>, to: Seq<char>, from: int) -> Seq<char>
    decreases s.len() - from,
{
    match find_from(s, pat, from) {
        None => s.skip(from),
        Some(i) => if i < from || pat.len() == 0 || i + pat.len() > s.len() {
            s.skip(from)
        } else {
            s.subrange(from, i) + to + replaced_from(s, pat, to, i + pat.len())
        },
    }
}

/// `s` with each occurrence of `pat` replaced by `to`, from left to right.
pub open spec fn replaced(s: Seq<char>, pat: Seq<char>, to: Seq<char>) -> Seq<char> {
    replaced_from(s, pat, to, 0)
}

/// Where `pat` does not occur a character stays.
pub proof fn replaced_skips(s: Seq<char>, pat: Seq<char>, to: Seq<char>, i: int)
    requires
        pat.len() > 0,
        0 <= i < s.len(),
        !occurs_at(s, pat, i),
    ensures
        replaced_from(s, pat, to, i) == seq![s[i]] + replaced_from(s, pat, to, i + 1),
{
    find_from_is_first(s, pat, i + 1);
    match find_from(s, pat, i + 1) {
        None => {
            assert(s.skip(i) =~= seq![s[i]] + s.skip(i + 1));
        },
        Some(j) => {
            assert(s.subrange(i, j) + to + replaced_from(s, pat, to, j + pat.len()) =~= seq![s[i]]
                + (s.subrange(i + 1, j) + to + replaced_from(s, pat, to, j + pat.len())));
        },
    }
}

/// Where `pat` occurs `to` takes its place.
pub proof fn replaced_takes(s: Seq<char>, pat: Seq<char>, to: Seq<char>, i: int)
    requires
        pat.len() > 0,
        0 <= i,
        occurs_at(s, pat, i),
    ensures
        replaced_from(s, pat, to, i) == to + replaced_from(s, pat, to, i + pat.len()),
{
    assert(s.subrange(i, i) + to =~= to);
}

/// `s` with each occurrence of `pat` replaced by `to`, from left to right.
pub fn replace(s: &str, pat: &str, to: &str) -> (r: String)
    requires
        pat@.len() > 0,
    ensures
        r@ == replaced(s@, pat@, to@),
{
    let cs: Vec<char> = chars_of(s);
    let n: usize = pat.unicode_len();
    let mut out: String = String::new();
    let mut at: usize = 0;
    let ghost whole = replaced(s@, pat@, to@);
    proof {
        assert(out@ + whole =~= whole);
    }
    loop
        invariant_except_break
            out@ + replaced_from(s@, pat@, to@, at as int) == whole,
        invariant
            cs@ == s@,
            n == pat@.len(),
            n > 0,
            at <= cs.len(),
            whole == replaced(s@, pat@, to@),
        ensures
            out@ == whole,
        decreases cs.len() - at,
    {
        proof {
            find_from_is_first(s@, pat@, at as int);
        }
        match find_chars(&cs, pat, at) {
            None => {
                let rest: String = string_of(&cs, at, cs.len());
                proof {
                    assert(rest@ =~= s@.skip(at as int));
                }
                out.append(rest.as_str());
                break;
            },
            Some(i) => {
                let before: String = string_of(&cs, at, i);
                let ghost o = out@;
                out.append(before.as_str());
                out.append(to);
                proof {
                    assert(out@ + replaced_from(s@, pat@, to@, i + n) =~= o + (s@.subrange(
                        at as int,
                        i as int,
                    ) + to@ + replaced_from(s@, pat@, to@, i + n)));
                }
                at = i + n;
            },
        }
    }
    out
}

/// The index at which the white space that `s` begins with ends.
pub open spec fn lead(s: Seq<char>) -> int
    decreases s.len(),
{
    if s.len() > 0 && white(s[0]) {
        1 + lead(s.drop_first())
    } else {
        0
    }
}

/// `s` without the white space it begins with.
pub open spec fn trimmed_start(s: Seq<char>) -> Seq<char>
    decreases s.len(),
{
    if s.len() > 0 && white(s[0]) {
        trimmed_start(s.drop_first())
    } else {
        s
    }
}

/// `s` without the white space it ends with.
pub open spec fn trimmed_end(s: Seq<char>) -> Seq<char>
    decreases s.len(),
{
    if s.len() > 0 && white(s.last()) {
        trimmed_end(s.drop_last())
    } else {
        s
    }
}

/// `s` without the white space at either end.
pub open spec fn trimmed(s: Seq<char>) -> Seq<char> {
    trimmed_end(trimmed_start(s))
}

/// The index of the first character, from `from` on, that is no white space.
pub fn skip_white(cs: &Vec<char>, from: usize) -> (r: usize)
    requires
        from <= cs.len(),
    ensures
        from <= r <= cs.len(),
        trimmed_start(cs@.skip(from as int)) == cs@.skip(r as int),
{
    let mut i: usize = from;
    while i < cs.len() && is_white(cs[i])
        invariant
            from <= i <= cs.len(),
            trimmed_start(cs@.skip(from as int)) == trimmed_start(cs@.skip(i as int)),
        decreases cs.len() - i,
    {
        proof {
            assert(cs@.skip(i as int).drop_first() =~= cs@.skip(i + 1));
        }
        i = i + 1;
    }
    i
}

/// The end of `cs[from..to]` without the white space it ends with.
pub fn drop_white(cs: &Vec<char>, from: usize, to: usize) -> (r: usize)
    requires
        from <= to <= cs.len(),
    ensures
        from <= r <= to,
        trimmed_end(cs@.subrange(from as int, to as int)) == cs@.subrange(from as int, r as int),
{
    let mut j: usize = to;
    while j > from && is_white(cs[j - 1])
        invariant
            from <= j <= to <= cs.len(),
            trimmed_end(cs@.subrange(from as int, to as int)) == trimmed_end(
                cs@.subrange(from as int, j as int),
            ),
        decreases j,
    {
        proof {
            assert(cs@.subrange(from as int, j as int).drop_last() =~= cs@.subrange(
                from as int,
                j - 1,
            ));
        }
        j = j - 1;
    }
    j
}

/// `s` without the white space it begins with.
pub fn trim_start(s: &str) -> (r: &str)
    ensures
        r@ == trimmed_start(s@),
{
    let cs: Vec<char> = chars_of(s);
    let i: usize = skip_white(&cs, 0);
    proof {
        assert(s@.skip(0) =~= s@);
        assert(s@.skip(i as int) =~= s@.subrange(i as int, s@.len() as int));
    }
    s.substring_char(i, cs.len())
}

/// `s` without the white space it ends with.
pub fn trim_end(s: &str) -> (r: &str)
    ensures
        r@ == trimmed_end(s@),
{
    let cs: Vec<char> = chars_of(s);
    let j: usize = drop_white(&cs, 0, cs.len());
    proof {
        assert(s@.subrange(0, s@.len() as int) =~= s@);
    }
    s.substring_char(0, j)
}

/// `s` without the white space at either end.
pub fn trim(s: &str) -> (r: &str)
    ensures
        r@ == trimmed(s@),
{
    trim_end(trim_start(s))
}

/// The index of the first `c` in `s`.
pub open spec fn index_of(s: Seq<char>, c: char) -> Option<int>
    decreases s.len(),
{
    if s.len() == 0 {
        None
    } else if s[0] == c {
        Some(0)
    } else {
        match index_of(s.drop_first(), c) {
            Some(i) => Some(i + 1),
            None => None,
        }
    }
}

/// The index that `index_of` names is in range and holds `c`, with no `c`
/// before it; where it names none, `c` does not occur.
pub proof fn index_of_is_first(s: Seq<char>, c: char)
    ensures
        index_of(s, c) matches Some(i) ==> 0 <= i < s.len() && s[i] == c && forall|j: int|
            0 <= j < i ==> s[j] != c,
        index_of(s, c) is None ==> !s.contains(c),
    decreases s.len(),
{
    if s.len() > 0 && s[0] != c {
        let t = s.drop_first();
        index_of_is_first(t, c);
        match index_of(t, c) {
            Some(i) => {
                assert forall|j: int| 0 <= j < i + 1 implies s[j] != c by {
                    if j > 0 {
                        assert(t[j - 1] == s[j]);
                    }
                }
            },
            None => {
                assert forall|j: int| 0 <= j < s.len() implies s[j] != c by {
                    if j > 0 {
                        assert(t[j - 1] == s[j]);
                        assert(!t.contains(s[j]) || s[j] != c);
                    }
                }
            },
        }
    }
}

/// The index that fits the description of the first `c` is the one.
pub proof fn index_of_unique(s: Seq<char>, c: char, i: int)
    requires
        0 <= i < s.len(),
        s[i] == c,
        forall|j: int| 0 <= j < i ==> s[j] != c,
    ensures
        index_of(s, c) == Some(i),
{
    index_of_is_first(s, c);
    match index_of(s, c) {
        Some(k) => {
            if k < i {
                assert(s[k] != c);
            } else if i < k {
                assert(s[i] != c);
            }
        },
        None => {
            assert(s.contains(s[i]));
        },
    }
}

/// The first index of `c` in `cs[from..]`, counted from the start of `cs`.
pub fn find_char(cs: &Vec<char>, c: char, from: usize) -> (r: Option<usize>)
    requires
        from <= cs.len(),
    ensures
        r matches Some(i) ==> from <= i < cs.len() && cs[i as int] == c && index_of(
            cs@.skip(from as int),
            c,
        ) == Some(i - from),
        r is None ==> index_of(cs@.skip(from as int), c) is None,
{
    let mut i: usize = from;
    while i < cs.len()
        invariant
            from <= i <= cs.len(),
            forall|j: int| from <= j < i ==> cs[j] != c,
        decreases cs.len() - i,
    {
        if cs[i] == c {
            proof {
                index_of_unique(cs@.skip(from as int), c, i - from);
            }
            return Some(i);
        }
        i = i + 1;
    }
    proof {
        index_of_is_first(cs@.skip(from as int), c);
    }
    None
}

/// How many of the first characters of `s` in a row `f` holds of.
pub open spec fn span(s: Seq<char>, f: spec_fn(char) -> bool) -> int
    decreases s.len(),
{
    if s.len() > 0 && f(s[0]) {
        1 + span(s.drop_first(), f)
    } else {
        0
    }
}

/// A run that cannot be made longer is the one that `span` counts.
pub proof fn span_is(s: Seq<char>, f: spec_fn(char) -> bool, n: int)
    requires
        0 <= n <= s.len(),
        forall|k: int| 0 <= k < n ==> f(s[k]),
        n < s.len() ==> !f(s[n]),
    ensures
        span(s, f) == n,
    decreases n,
{
    if n > 0 {
        let t = s.drop_first();
        assert forall|k: int| 0 <= k < n - 1 implies f(t[k]) by {
            assert(t[k] == s[k + 1]);
        }
        if n < s.len() {
            assert(t[n - 1] == s[n]);
        }
        span_is(t, f, n - 1);
    }
}

/// A span lies within the text.
pub proof fn span_bound(s: Seq<char>, f: spec_fn(char) -> bool)
    ensures
        0 <= span(s, f) <= s.len(),
    decreases s.len(),
{
    if s.len() > 0 && f(s[0]) {
        span_bound(s.drop_first(), f);
    }
}

/// A line without the carriage return that may stand before its newline.
pub open spec fn without_cr(s: Seq<char>) -> Seq<char> {
    if s.len() > 0 && s.last() == '\r' {
        s.drop_last()
    } else {
        s
    }
}

/// The lines of `s`: each ends in `\n` or `\r\n`, which is not part of it, and
/// the last may do without.
pub open spec fn lines_of(s: Seq<char>) -> Seq<Seq<char>>
    decreases s.len(),
    via lines_of_decreases
{
    if s.len() == 0 {
        Seq::empty()
    } else {
        match index_of(s, '\n') {
            None => seq![s],
            Some(i) => seq![without_cr(s.take(i))] + lines_of(s.skip(i + 1)),
        }
    }
}

#[via_fn]
proof fn lines_of_decreases(s: Seq<char>) {
    index_of_is_first(s, '\n');
}

/// The lines of a text that ends in a line break, and then the lines of what
/// comes behind it.
pub proof fn lines_of_more(c: Seq<char>, x: Seq<char>)
    requires
        c.len() == 0 || c.last() == '\n',
    ensures
        lines_of(c + x) == lines_of(c) + lines_of(x),
    decreases c.len(),
{
    if c.len() == 0 {
        assert(c + x =~= x);
        assert(lines_of(c) + lines_of(x) =~= lines_of(x));
    } else {
        index_of_is_first(c, '\n');
        assert(c.contains(c[c.len() - 1]));
        let i = index_of(c, '\n')->0;
        let s = c + x;
        assert(s[i] == '\n');
        assert forall|j: int| 0 <= j < i implies s[j] != '\n' by {
            assert(s[j] == c[j]);
        }
        index_of_unique(s, '\n', i);
        assert(s.take(i) =~= c.take(i));
        let rest = c.skip(i + 1);
        assert(s.skip(i + 1) =~= rest + x);
        if rest.len() > 0 {
            assert(rest.last() == c.last());
        }
        lines_of_more(rest, x);
        assert(lines_of(s) =~= lines_of(c) + lines_of(x));
    }
}


/// The lines of `s`.
pub fn lines(s: &str) -> (r: Vec<&str>)
    ensures
        r@.len() == lines_of(s@).len(),
        forall|i: int| 0 <= i < r@.len() ==> (#[trigger] r@[i])@ == lines_of(s@)[i],
{
    let cs: Vec<char> = chars_of(s);
    let mut out: Vec<&str> = Vec::new();
    let mut from: usize = 0;
    proof {
        assert(s@.skip(0) =~= s@);
    }
    while from < cs.len()
        invariant
            cs@ == s@,
            from <= cs.len(),
            out@.len() + lines_of(s@.skip(from as int)).len() == lines_of(s@).len(),
            forall|i: int| 0 <= i < out@.len() ==> (#[trigger] out@[i])@ == lines_of(s@)[i],
            forall|i: int|
                0 <= i < lines_of(s@.skip(from as int)).len() ==> #[trigger] lines_of(
                    s@.skip(from as int),
                )[i] == lines_of(s@)[out@.len() + i],
        decreases cs.len() - from,
    {
        let ghost rest = s@.skip(from as int);
        let ghost done = out@.len();
        match find_char(&cs, '\n', from) {
            None => {
                proof {
                    assert(rest =~= s@.subrange(from as int, s@.len() as int));
                    assert(lines_of(rest) == seq![rest]);
                    assert(lines_of(rest)[0] == lines_of(s@)[done as int]);
                    assert(s@.skip(s@.len() as int) =~= Seq::<char>::empty());
                }
                out.push(s.substring_char(from, cs.len()));
                from = cs.len();
            },
            Some(nl) => {
                let end: usize = if nl > from && cs[nl - 1] == '\r' {
                    nl - 1
                } else {
                    nl
                };
                proof {
                    let i = nl - from;
                    assert(rest.take(i) =~= s@.subrange(from as int, nl as int));
                    assert(without_cr(rest.take(i)) =~= s@.subrange(from as int, end as int));
                    assert(rest.skip(i + 1) =~= s@.skip(nl + 1));
                    let tail = lines_of(s@.skip(nl + 1));
                    assert(lines_of(rest) == seq![without_cr(rest.take(i))] + tail);
                    assert(lines_of(rest)[0] == lines_of(s@)[done as int]);
                    assert forall|k: int| 0 <= k < tail.len() implies #[trigger] tail[k]
                        == lines_of(s@)[done + 1 + k] by {
                        assert(lines_of(rest)[k + 1] == tail[k]);
                    }
                }
                out.push(s.substring_char(from, end));
                from = nl + 1;
            },
        }
    }
    proof {
        assert(s@.skip(from as int) =~= Seq::<char>::empty());
    }
    out
}

/// The pieces of `s` between the characters that `sep` holds of.
pub open spec fn split_by(s: Seq<char>, sep: spec_fn(char) -> bool) -> Seq<Seq<char>>
    decreases s.len(),
{
    if s.len() == 0 {
        seq![s]
    } else if sep(s.last()) {
        split_by(s.drop_last(), sep).push(Seq::empty())
    } else {
        let front = split_by(s.drop_last(), sep);
        front.update(front.len() - 1, front.last().push(s.last()))
    }
}

/// The character `c`, or, where `or_white`, any white space too.
pub open spec fn separator(c: char, or_white: bool) -> spec_fn(char) -> bool {
    |x: char| x == c || (or_white && white(x))
}

/// The string slices of `v`, each by its characters.
pub open spec fn slices(v: Seq<&str>) -> Seq<Seq<char>> {
    v.map_values(|s: &str| s@)
}

/// The pieces of `s` between the characters `c`, or, where `or_white`, between
/// those and white space.
pub fn split(s: &str, c: char, or_white: bool) -> (r: Vec<&str>)
    ensures
        slices(r@) == split_by(s@, separator(c, or_white)),
{
    let cs: Vec<char> = chars_of(s);
    let ghost sep = separator(c, or_white);
    let mut out: Vec<&str> = Vec::new();
    let mut from: usize = 0;
    let mut i: usize = 0;
    proof {
        assert(s@.take(0) =~= Seq::<char>::empty());
        assert(slices(out@).push(s@.subrange(0, 0)) =~= split_by(s@.take(0), sep));
    }
    while i < cs.len()
        invariant
            cs@ == s@,
            sep == separator(c, or_white),
            from <= i <= cs.len(),
            slices(out@).push(s@.subrange(from as int, i as int)) == split_by(
                s@.take(i as int),
                sep,
            ),
        decreases cs.len() - i,
    {
        let ghost done = slices(out@);
        let ghost current = s@.subrange(from as int, i as int);
        proof {
            assert(s@.take(i + 1).drop_last() =~= s@.take(i as int));
            assert(s@.take(i + 1).last() == cs@[i as int]);
            assert(done.push(current).last() == current);
        }
        if cs[i] == c || (or_white && is_white(cs[i])) {
            out.push(s.substring_char(from, i));
            from = i + 1;
            proof {
                assert(slices(out@) =~= done.push(current));
                assert(s@.subrange(from as int, i + 1) =~= Seq::<char>::empty());
            }
        } else {
            proof {
                assert(s@.subrange(from as int, i + 1) =~= current.push(cs@[i as int]));
                assert(done.push(current).update(done.len() as int, current.push(cs@[i as int]))
                    =~= done.push(s@.subrange(from as int, i + 1)));
            }
        }
        i = i + 1;
    }
    let ghost done = slices(out@);
    out.push(s.substring_char(from, cs.len()));
    proof {
        assert(s@.take(s@.len() as int) =~= s@);
        assert(slices(out@) =~= done.push(s@.subrange(from as int, s@.len() as int)));
    }
    out
}

/// There is always at least one piece.
pub proof fn split_by_nonempty(s: Seq<char>, sep: spec_fn(char) -> bool)
    ensures
        split_by(s, sep).len() >= 1,
    decreases s.len(),
{
    if s.len() > 0 {
        split_by_nonempty(s.drop_last(), sep);
    }
}

/// The parts of `parts` one behind the other, with `sep` between two.
pub open spec fn joined(parts: Seq<Seq<char>>, sep: Seq<char>) -> Seq<char>
    decreases parts.len(),
{
    if parts.len() == 0 {
        Seq::empty()
    } else if parts.len() == 1 {
        parts[0]
    } else {
        joined(parts.drop_last(), sep) + sep + parts.last()
    }
}

/// The strings of `v`, each by its characters.
pub open spec fn texts(v: Seq<String>) -> Seq<Seq<char>> {
    v.map_values(|s: String| s@)
}

/// An optional string by its characters.
pub open spec fn text_option(s: Option<String>) -> Option<Seq<char>> {
    match s {
        Some(t) => Some(t@),
        None => None,
    }
}

/// An owned copy of a list of strings.
pub fn owned_list(v: &Vec<String>) -> (r: Vec<String>)
    ensures
        texts(r@) == texts(v@),
{
    let r: Vec<String> = v.clone();
    proof {
        assert(texts(r@) =~= texts(v@));
    }
    r
}

/// Whether `s` is among the strings of `v`.
pub fn list_has(v: &Vec<String>, s: &str) -> (r: bool)
    ensures
        r == texts(v@).contains(s@),
{
    let ghost all = texts(v@);
    let mut i: usize = 0;
    while i < v.len()
        invariant
            all == texts(v@),
            i <= v.len(),
            forall|k: int| 0 <= k < i ==> #[trigger] all[k] != s@,
        decreases v.len() - i,
    {
        if same(v[i].as_str(), s) {
            proof {
                assert(all[i as int] == s@);
            }
            return true;
        }
        i = i + 1;
    }
    false
}

/// The parts of `parts` one behind the other, with `sep` between two.
pub fn join(parts: &Vec<String>, sep: &str) -> (r: String)
    ensures
        r@ == joined(texts(parts@), sep@),
{
    let mut out: String = String::new();
    let mut i: usize = 0;
    let ghost all = texts(parts@);
    proof {
        assert(all.take(0) =~= Seq::<Seq<char>>::empty());
    }
    while i < parts.len()
        invariant
            i <= parts.len(),
            all == texts(parts@),
            out@ == joined(all.take(i as int), sep@),
        decreases parts.len() - i,
    {
        proof {
            assert(all.take(i + 1).drop_last() =~= all.take(i as int));
            assert(all.take(i + 1).last() == parts@[i as int]@);
        }
        if i > 0 {
            out.append(sep);
        }
        out.append(parts[i].as_str());
        proof {
            if i == 0 {
                assert(out@ =~= parts@[0]@);
            }
        }
        i = i + 1;
    }
    proof {
        assert(all.take(all.len() as int) =~= all);
    }
    out
}

// ---------------------------------------------------------------------
// Numbers
// ---------------------------------------------------------------------

/// The character of a decimal digit.
pub open spec fn digit_char(d: nat) -> char {
    (('0' as u32) + d) as char
}

/// `n` in decimal, without leading zeros.
pub open spec fn decimal(n: nat) -> Seq<char>
    decreases n,
{
    if n < 10 {
        seq![digit_char(n)]
    } else {
        decimal(n / 10).push(digit_char(n % 10))
    }
}

/// A number in decimal is made of digits.
pub proof fn decimal_is_digits(n: nat)
    ensures
        decimal(n).len() > 0,
        forall|i: int| 0 <= i < decimal(n).len() ==> digit(#[trigger] decimal(n)[i]),
    decreases n,
{
    if n >= 10 {
        decimal_is_digits(n / 10);
        let before = decimal(n / 10);
        assert forall|i: int| 0 <= i < decimal(n).len() implies digit(#[trigger] decimal(n)[i]) by {
            if i < before.len() {
                assert(decimal(n)[i] == before[i]);
                assert(digit(before[i]));
            }
        }
    }
}

/// Different numbers are written differently.
pub proof fn decimal_is_injective(a: nat, b: nat)
    requires
        decimal(a) == decimal(b),
    ensures
        a == b,
    decreases a,
{
    decimal_is_digits(a / 10);
    decimal_is_digits(b / 10);
    let x = decimal(a);
    let y = decimal(b);
    assert(x.last() == y.last());
    assert(x.last() == digit_char(a % 10));
    assert(y.last() == digit_char(b % 10));
    assert(a % 10 == b % 10);
    if a >= 10 && b >= 10 {
        assert(x.drop_last() =~= decimal(a / 10));
        assert(y.drop_last() =~= decimal(b / 10));
        decimal_is_injective(a / 10, b / 10);
    }
}

/// The character of a decimal digit.
fn digit_of(d: u128) -> (r: char)
    requires
        d < 10,
    ensures
        r == digit_char(d as nat),
{
    match d {
        0 => '0',
        1 => '1',
        2 => '2',
        3 => '3',
        4 => '4',
        5 => '5',
        6 => '6',
        7 => '7',
        8 => '8',
        _ => '9',
    }
}

/// `n` in decimal.
pub fn number(n: u128) -> (r: String)
    ensures
        r@ == decimal(n as nat),
    decreases n,
{
    if n < 10 {
        let mut out: String = String::new();
        out.push(digit_of(n));
        proof {
            assert(out@ =~= seq![digit_char(n as nat)]);
        }
        out
    } else {
        let mut out: String = number(n / 10);
        out.push(digit_of(n % 10));
        out
    }
}

/// A signed number in decimal, with a `-` in front of a negative one.
pub open spec fn signed_decimal(n: int) -> Seq<char> {
    if n < 0 {
        seq!['-'] + decimal((-n) as nat)
    } else {
        decimal(n as nat)
    }
}

/// `n` in decimal.
pub fn signed_number(n: i64) -> (r: String)
    ensures
        r@ == signed_decimal(n as int),
{
    if n < 0 {
        let magnitude: u128 = (-(n as i128)) as u128;
        let mut out: String = String::new();
        out.push('-');
        proof {
            assert(out@ =~= seq!['-']);
        }
        out.append(number(magnitude).as_str());
        out
    } else {
        number(n as u128)
    }
}

/// Pairs of texts.
pub open spec fn pairs_of(v: Seq<(String, String)>) -> Seq<(Seq<char>, Seq<char>)> {
    v.map_values(|p: (String, String)| (p.0@, p.1@))
}

/// The texts of `v` from `from` on.
pub fn owned_from(v: &[String], from: usize) -> (r: Vec<String>)
    requires
        from <= v@.len(),
    ensures
        texts(r@) == texts(v@).skip(from as int),
{
    let ghost all = texts(v@).skip(from as int);
    let mut out: Vec<String> = Vec::new();
    let mut i: usize = from;
    while i < v.len()
        invariant
            from <= i <= v@.len(),
            all == texts(v@).skip(from as int),
            texts(out@) == all.take(i - from),
        decreases v@.len() - i,
    {
        let ghost o = out@;
        out.push(v[i].clone());
        proof {
            assert(texts(out@) =~= texts(o).push(out@.last()@));
            assert(all.take(i - from + 1) =~= all.take(i - from).push(all[i - from]));
        }
        i = i + 1;
    }
    proof {
        assert(all.take(all.len() as int) =~= all);
    }
    out
}

// ---------------------------------------------------------------------
// Putting text together
// ---------------------------------------------------------------------

/// `a` and `b`, one behind the other.
pub fn cat2(a: &str, b: &str) -> (r: String)
    ensures
        r@ == a@ + b@,
{
    let mut out: String = owned(a);
    out.append(b);
    out
}

/// `a`, `b` and `c`, one behind the other.
pub fn cat3(a: &str, b: &str, c: &str) -> (r: String)
    ensures
        r@ == a@ + b@ + c@,
{
    let mut out: String = cat2(a, b);
    out.append(c);
    out
}

/// `a` to `d`, one behind the other.
pub fn cat4(a: &str, b: &str, c: &str, d: &str) -> (r: String)
    ensures
        r@ == a@ + b@ + c@ + d@,
{
    let mut out: String = cat3(a, b, c);
    out.append(d);
    out
}

/// `a` to `e`, one behind the other.
pub fn cat5(a: &str, b: &str, c: &str, d: &str, e: &str) -> (r: String)
    ensures
        r@ == a@ + b@ + c@ + d@ + e@,
{
    let mut out: String = cat4(a, b, c, d);
    out.append(e);
    out
}

/// `a` to `f`, one behind the other.
pub fn cat6(a: &str, b: &str, c: &str, d: &str, e: &str, f: &str) -> (r: String)
    ensures
        r@ == a@ + b@ + c@ + d@ + e@ + f@,
{
    let mut out: String = cat5(a, b, c, d, e);
    out.append(f);
    out
}

/// `s` filled up on the right with spaces to at least `width` characters.
pub open spec fn padded(s: Seq<char>, width: nat) -> Seq<char> {
    if s.len() < width {
        s + Seq::new((width - s.len()) as nat, |i: int| ' ')
    } else {
        s
    }
}

/// `s` filled up on the right with spaces to at least `width` characters.
pub fn pad(s: &str, width: usize) -> (r: String)
    ensures
        r@ == padded(s@, width as nat),
{
    let n: usize = s.unicode_len();
    let mut out: String = owned(s);
    let mut i: usize = n;
    while i < width
        invariant
            n == s@.len(),
            n <= i,
            i <= width || i == n,
            out@ == s@ + Seq::new((i - n) as nat, |k: int| ' '),
        decreases width - i,
    {
        out.push(' ');
        i = i + 1;
        proof {
            assert(out@ =~= s@ + Seq::new((i - n) as nat, |k: int| ' '));
        }
    }
    proof {
        assert(out@ =~= padded(s@, width as nat));
    }
    out
}

/// `s` with each `from` turned into `to`.
pub open spec fn with_char(s: Seq<char>, from: char, to: char) -> Seq<char> {
    s.map_values(|c: char| if c == from { to } else { c })
}

/// `s` with each `from` turned into `to`.
pub fn replace_char(s: &str, from: char, to: char) -> (r: String)
    ensures
        r@ == with_char(s@, from, to),
{
    let cs: Vec<char> = chars_of(s);
    let mut out: String = String::new();
    let mut i: usize = 0;
    while i < cs.len()
        invariant
            cs@ == s@,
            i <= cs.len(),
            out@ == with_char(s@.take(i as int), from, to),
        decreases cs.len() - i,
    {
        if cs[i] == from {
            out.push(to);
        } else {
            out.push(cs[i]);
        }
        proof {
            assert(with_char(s@.take(i + 1), from, to) =~= with_char(
                s@.take(i as int),
                from,
                to,
            ).push(if s@[i as int] == from {
                to
            } else {
                s@[i as int]
            }));
        }
        i = i + 1;
    }
    proof {
        assert(s@.take(s@.len() as int) =~= s@);
    }
    out
}

/// `s` with its upper-case ASCII letters made lower-case.
pub open spec fn lowered(s: Seq<char>) -> Seq<char> {
    s.map_values(|c: char| lower_char(c))
}

/// `c` with an upper-case ASCII letter replaced by its lower-case form.
fn to_lower_char(c: char) -> (r: char)
    ensures
        r == lower_char(c),
{
    if 'A' <= c && c <= 'Z' {
        let n: u8 = c as u8 + 32;
        n as char
    } else {
        c
    }
}

/// `s` with its upper-case ASCII letters made lower-case.
pub fn to_ascii_lower(s: &str) -> (r: String)
    ensures
        r@ == lowered(s@),
{
    let cs: Vec<char> = chars_of(s);
    let mut out: String = String::new();
    let mut i: usize = 0;
    while i < cs.len()
        invariant
            cs@ == s@,
            i <= cs.len(),
            out@ == lowered(s@.take(i as int)),
        decreases cs.len() - i,
    {
        out.push(to_lower_char(cs[i]));
        proof {
            assert(lowered(s@.take(i + 1)) =~= lowered(s@.take(i as int)).push(
                lower_char(s@[i as int]),
            ));
        }
        i = i + 1;
    }
    proof {
        assert(s@.take(s@.len() as int) =~= s@);
    }
    out
}

/// Whether `s` holds the character `c`.
pub fn has_char(s: &str, c: char) -> (r: bool)
    ensures
        r == s@.contains(c),
{
    let cs: Vec<char> = chars_of(s);
    let mut i: usize = 0;
    while i < cs.len()
        invariant
            cs@ == s@,
            i <= cs.len(),
            forall|k: int| 0 <= k < i ==> s@[k] != c,
        decreases cs.len() - i,
    {
        if cs[i] == c {
            proof {
                assert(s@[i as int] == c);
            }
            return true;
        }
        i = i + 1;
    }
    false
}

/// The trimmed text, where something is left of it.
pub open spec fn kept_text(s: Option<Seq<char>>) -> Option<Seq<char>> {
    match s {
        Some(t) => if trimmed(t).len() == 0 {
            None
        } else {
            Some(trimmed(t))
        },
        None => None,
    }
}

/// The trimmed text, where something is left of it.
pub fn kept(s: &Option<String>) -> (r: Option<String>)
    ensures
        text_option(r) == kept_text(text_option(*s)),
{
    match s {
        Some(t) => {
            let t: &str = trim(t.as_str());
            if t.unicode_len() == 0 {
                None
            } else {
                Some(owned(t))
            }
        },
        None => None,
    }
}

/// The value of a run of decimal digits.
pub open spec fn digits_value(s: Seq<char>) -> nat
    decreases s.len(),
{
    if s.len() == 0 {
        0
    } else {
        digits_value(s.drop_last()) * 10 + (s.last() as nat - '0' as nat) as nat
    }
}

/// `s` without one leading plus sign.
pub open spec fn unsigned(s: Seq<char>) -> Seq<char> {
    if s.len() > 0 && s[0] == '+' {
        s.skip(1)
    } else {
        s
    }
}

/// The number that `s` writes in decimal, where it is at most `max`.
pub open spec fn number_in(s: Seq<char>, max: nat) -> Option<nat> {
    let d = unsigned(s);
    if d.len() == 0 || !(forall|i: int| 0 <= i < d.len() ==> digit(#[trigger] d[i]))
        || digits_value(d) > max {
        None
    } else {
        Some(digits_value(d))
    }
}

/// A number only grows with the digits behind it.
proof fn digits_grow(s: Seq<char>, i: int)
    requires
        0 <= i <= s.len(),
    ensures
        digits_value(s.take(i)) <= digits_value(s),
    decreases s.len(),
{
    if i == s.len() {
        assert(s.take(i) =~= s);
    } else {
        digits_grow(s.drop_last(), i);
        assert(s.drop_last().take(i) =~= s.take(i));
    }
}

/// The number that `s` writes in decimal, with an optional plus sign before
/// it, where it is at most `max`.
pub fn parse_number(s: &str, max: u64) -> (r: Option<u64>)
    ensures
        (match r {
            Some(n) => Some(n as nat),
            None => None,
        }) == number_in(s@, max as nat),
{
    let cs: Vec<char> = chars_of(s);
    let from: usize = if cs.len() > 0 && cs[0] == '+' {
        1
    } else {
        0
    };
    let ghost d = unsigned(s@);
    proof {
        assert(d =~= cs@.skip(from as int));
    }
    if from == cs.len() {
        return None;
    }
    let mut i: usize = from;
    let mut value: u64 = 0;
    while i < cs.len()
        invariant
            from <= i <= cs.len(),
            d == cs@.skip(from as int),
            d == unsigned(s@),
            d.len() > 0,
            forall|k: int| 0 <= k < i - from ==> digit(#[trigger] d[k]),
            value == digits_value(d.take(i - from)),
            value <= max,
        decreases cs.len() - i,
    {
        let c: char = cs[i];
        proof {
            assert(c == d[i - from]);
            assert(d.take(i - from + 1).drop_last() =~= d.take(i - from));
            assert(d.take(i - from + 1).last() == c);
            digits_grow(d, i - from + 1);
        }
        if !is_digit(c) {
            return None;
        }
        let add: u64 = c as u64 - '0' as u64;
        let next: u128 = value as u128 * 10 + add as u128;
        if next > max as u128 {
            return None;
        }
        value = next as u64;
        i = i + 1;
    }
    proof {
        assert(d.take(d.len() as int) =~= d);
    }
    Some(value)
}

// ---------------------------------------------------------------------
// What the standard library decides about text
// ---------------------------------------------------------------------

/// `s` in double quotes, as `{:?}` writes it.
pub uninterp spec fn quoted(s: Seq<char>) -> Seq<char>;

/// The `Debug` form of a `str`, by `format!`: the text in double quotes, with
/// escapes for the characters that Rust escapes. Which those are is left to
/// the standard library; the same text always gives the same form.
#[verifier::external_body]
pub(crate) fn quote(s: &str) -> (r: String)
    ensures
        r@ == quoted(s@),
{
    format!("{s:?}")
}

/// `s` in lower case, as the Unicode tables of the standard library have it.
pub uninterp spec fn lowercased(s: Seq<char>) -> Seq<char>;

/// `str::to_lowercase`. What it does to a letter outside ASCII is left to the
/// Unicode tables of the standard library; the same text always gives the same
/// result.
#[verifier::external_body]
pub(crate) fn to_lowercase(s: &str) -> (r: String)
    ensures
        r@ == lowercased(s@),
{
    s.to_lowercase()
}

// ---------------------------------------------------------------------
// What the operations on text come to
// ---------------------------------------------------------------------

/// Trimming at the start drops white space and nothing else, and all of it.
pub proof fn trimming_start_drops_white(s: Seq<char>) -> (n: int)
    ensures
        0 <= n <= s.len(),
        trimmed_start(s) == s.skip(n),
        forall|k: int| 0 <= k < n ==> white(#[trigger] s[k]),
        n < s.len() ==> !white(s[n]),
    decreases s.len(),
{
    if s.len() > 0 && white(s[0]) {
        let t = s.drop_first();
        let m = trimming_start_drops_white(t);
        assert(t.skip(m) =~= s.skip(m + 1));
        assert forall|k: int| 0 <= k < m + 1 implies white(#[trigger] s[k]) by {
            if k > 0 {
                assert(t[k - 1] == s[k]);
            }
        }
        if m + 1 < s.len() {
            assert(t[m] == s[m + 1]);
        }
        m + 1
    } else {
        assert(s.skip(0) =~= s);
        0
    }
}

/// Trimming at the end drops white space and nothing else, and all of it.
pub proof fn trimming_end_drops_white(s: Seq<char>) -> (n: int)
    ensures
        0 <= n <= s.len(),
        trimmed_end(s) == s.take(n),
        forall|k: int| n <= k < s.len() ==> white(#[trigger] s[k]),
        n > 0 ==> !white(s[n - 1]),
    decreases s.len(),
{
    if s.len() > 0 && white(s.last()) {
        let t = s.drop_last();
        let n = trimming_end_drops_white(t);
        assert(t.take(n) =~= s.take(n));
        assert forall|k: int| n <= k < s.len() implies white(#[trigger] s[k]) by {
            if k < t.len() {
                assert(t[k] == s[k]);
            }
        }
        n
    } else {
        assert(s.take(s.len() as int) =~= s);
        s.len() as int
    }
}

/// What is left of a trimmed text stands in it, white space alone stands around
/// it, and it has none at its ends.
pub proof fn trimming_drops_white(s: Seq<char>) -> (r: (int, int))
    ensures
        0 <= r.0 <= r.1 <= s.len(),
        trimmed(s) == s.subrange(r.0, r.1),
        forall|k: int| 0 <= k < r.0 ==> white(#[trigger] s[k]),
        forall|k: int| r.1 <= k < s.len() ==> white(#[trigger] s[k]),
        r.0 < r.1 ==> !white(s[r.0]) && !white(s[r.1 - 1]),
{
    let n = trimming_start_drops_white(s);
    let t = s.skip(n);
    let m = trimming_end_drops_white(t);
    assert(t.take(m) =~= s.subrange(n, n + m));
    assert forall|k: int| n + m <= k < s.len() implies white(#[trigger] s[k]) by {
        assert(t[k - n] == s[k]);
    }
    (n, n + m)
}

/// A text with white space around it is trimmed to itself.
pub proof fn trimming_gives_back(before: Seq<char>, s: Seq<char>, after: Seq<char>)
    requires
        forall|k: int| 0 <= k < before.len() ==> white(#[trigger] before[k]),
        forall|k: int| 0 <= k < after.len() ==> white(#[trigger] after[k]),
        s.len() > 0 ==> !white(s[0]) && !white(s.last()),
    ensures
        trimmed(before + s + after) == s,
        s.len() > 0 ==> trimmed_start(before + s + after) == s + after,
{
    let all = before + s + after;
    let (a, b) = trimming_drops_white(all);
    if s.len() == 0 {
        assert forall|k: int| 0 <= k < all.len() implies white(#[trigger] all[k]) by {
            if k < before.len() {
                assert(all[k] == before[k]);
            } else {
                assert(all[k] == after[k - before.len()]);
            }
        }
        if a < b {
            assert(white(all[a]));
        }
        assert(all.subrange(a, b) =~= s);
    } else {
        let n = before.len() as int;
        let m = n + s.len();
        assert(all[n] == s[0]);
        assert(all[m - 1] == s.last());
        assert(a <= n) by {
            if a > n {
                assert(white(all[n]));
            }
        }
        assert(b >= m) by {
            if b < m {
                assert(white(all[m - 1]));
            }
        }
        if a < n {
            assert(all[a] == before[a]);
        }
        if b > m {
            assert(all[b - 1] == after[b - 1 - m]);
        }
        assert(all.subrange(n, m) =~= s);
        let k = trimming_start_drops_white(all);
        if k < n {
            assert(all[k] == before[k]);
        }
        if k > n {
            assert(white(all[n]));
        }
        assert(all.skip(n) =~= s + after);
    }
}

/// Pieces on both sides of a separator are those of what stands before it and
/// those of what stands behind it.
pub proof fn splitting_at_a_separator(
    a: Seq<char>,
    c: char,
    b: Seq<char>,
    sep: spec_fn(char) -> bool,
)
    requires
        sep(c),
    ensures
        split_by(a + seq![c] + b, sep) == split_by(a, sep) + split_by(b, sep),
    decreases b.len(),
{
    let s = a + seq![c] + b;
    if b.len() == 0 {
        assert(s.drop_last() =~= a);
        assert(b =~= Seq::<char>::empty());
        assert(split_by(s, sep) =~= split_by(a, sep) + split_by(b, sep));
    } else {
        let front = b.drop_last();
        splitting_at_a_separator(a, c, front, sep);
        split_by_nonempty(front, sep);
        assert(s.drop_last() =~= a + seq![c] + front);
        assert(s.last() == b.last());
        assert(split_by(s, sep) =~= split_by(a, sep) + split_by(b, sep));
    }
}

/// A text without a separator is one piece.
pub proof fn splitting_without_separator(s: Seq<char>, sep: spec_fn(char) -> bool)
    requires
        forall|k: int| 0 <= k < s.len() ==> !sep(#[trigger] s[k]),
    ensures
        split_by(s, sep) == seq![s],
    decreases s.len(),
{
    if s.len() > 0 {
        let t = s.drop_last();
        assert forall|k: int| 0 <= k < t.len() implies !sep(#[trigger] t[k]) by {
            assert(t[k] == s[k]);
        }
        splitting_without_separator(t, sep);
        assert(!sep(s[s.len() - 1]));
        assert(t.push(s.last()) =~= s);
        assert(split_by(s, sep) =~= seq![s]);
    } else {
        assert(split_by(s, sep) =~= seq![s]);
    }
}

/// No piece holds a separator.
pub proof fn pieces_hold_no_separator(s: Seq<char>, sep: spec_fn(char) -> bool, i: int, k: int)
    requires
        0 <= i < split_by(s, sep).len(),
        0 <= k < split_by(s, sep)[i].len(),
    ensures
        !sep(split_by(s, sep)[i][k]),
    decreases s.len(),
{
    if s.len() > 0 {
        let front = split_by(s.drop_last(), sep);
        split_by_nonempty(s.drop_last(), sep);
        if i < front.len() && k < front[i].len() {
            pieces_hold_no_separator(s.drop_last(), sep, i, k);
        }
    }
}

/// The number that a row of digits stands for.
pub open spec fn decimal_value(ds: Seq<char>) -> int
    decreases ds.len(),
{
    if ds.len() == 0 {
        0
    } else {
        decimal_value(ds.drop_last()) * 10 + (ds.last() as int - '0' as int)
    }
}

/// A number in decimal stands for the number.
pub proof fn decimal_is_read_back(n: nat)
    ensures
        decimal_value(decimal(n)) == n,
        n > 0 ==> decimal(n)[0] != '0',
    decreases n,
{
    let all = decimal(n);
    if n < 10 {
        assert(all.drop_last() =~= Seq::<char>::empty());
        assert(decimal_value(all.drop_last()) == 0);
        assert(all.last() == digit_char(n));
    } else {
        decimal_is_read_back(n / 10);
        decimal_is_digits(n / 10);
        assert(all.drop_last() =~= decimal(n / 10));
        assert(all.last() == digit_char(n % 10));
    }
}

/// Lists that are joined are joined with the separator between them.
pub proof fn joining_two_lists(a: Seq<Seq<char>>, b: Seq<Seq<char>>, sep: Seq<char>)
    requires
        a.len() > 0,
        b.len() > 0,
    ensures
        joined(a + b, sep) == joined(a, sep) + sep + joined(b, sep),
        joined(seq![a[0]], sep) == a[0],
    decreases b.len(),
{
    let all = a + b;
    assert(all.drop_last() =~= a + b.drop_last());
    if b.len() == 1 {
        assert(all.drop_last() =~= a);
        assert(all.last() == b[0]);
    } else {
        joining_two_lists(a, b.drop_last(), sep);
        assert(joined(all, sep) =~= joined(a, sep) + sep + joined(b, sep));
    }
}

/// A text is filled up with spaces to the width and cut nowhere.
pub proof fn padding_keeps_the_text(s: Seq<char>, width: nat)
    ensures
        padded(s, width).len() == if s.len() < width {
            width
        } else {
            s.len()
        },
        padded(s, width).take(s.len() as int) == s,
        forall|k: int|
            s.len() <= k < padded(s, width).len() ==> (#[trigger] padded(s, width)[k]) == ' ',
{
    assert(padded(s, width).take(s.len() as int) =~= s);
}

/// Replacing a character replaces it everywhere and touches no other.
pub proof fn replacing_touches_no_other(s: Seq<char>, from: char, to: char)
    ensures
        with_char(s, from, to).len() == s.len(),
        forall|k: int|
            0 <= k < s.len() ==> (#[trigger] with_char(s, from, to)[k]) == if s[k] == from {
                to
            } else {
                s[k]
            },
{
}

/// A number that was written is read back where it is at most the limit, with a
/// plus sign in front or without, and refused where it is more.
pub proof fn numbers_are_read_back(n: nat, max: nat)
    ensures
        number_in(decimal(n), max) == if n <= max {
            Some(n)
        } else {
            None
        },
        number_in(seq!['+'] + decimal(n), max) == number_in(decimal(n), max),
{
    let d = decimal(n);
    decimal_is_digits(n);
    decimal_is_read_back(n);
    digits_stand_for_their_number(d);
    assert(digit(d[0]));
    let s = seq!['+'] + d;
    assert(s.skip(1) =~= d);
}

/// Digits have the value of the number that they stand for.
proof fn digits_stand_for_their_number(d: Seq<char>)
    requires
        forall|i: int| 0 <= i < d.len() ==> digit(#[trigger] d[i]),
    ensures
        digits_value(d) == decimal_value(d),
    decreases d.len(),
{
    if d.len() > 0 {
        let t = d.drop_last();
        assert forall|i: int| 0 <= i < t.len() implies digit(#[trigger] t[i]) by {
            assert(t[i] == d[i]);
        }
        digits_stand_for_their_number(t);
        assert(digit(d[d.len() - 1]));
    }
}

/// A text that is no row of digits, but for a plus sign in front, is no number.
pub proof fn only_digits_are_numbers(s: Seq<char>, max: nat, k: int)
    requires
        0 <= k < s.len(),
        !digit(s[k]),
        k > 0 || s[k] != '+' || s.len() == 1,
    ensures
        number_in(s, max) is None,
        number_in(Seq::<char>::empty(), max) is None,
{
    let d = unsigned(s);
    if d.len() > 0 {
        if s[0] == '+' {
            assert(d[k - 1] == s[k]);
        } else {
            assert(d[k] == s[k]);
        }
    }
}

/// A line is what stands before its line break, without a carriage return at
/// its end; what stands behind the last line break is a line if it is not empty.
pub proof fn lines_end_at_line_breaks(line: Seq<char>, rest: Seq<char>)
    requires
        forall|k: int| 0 <= k < line.len() ==> (#[trigger] line[k]) != '\n',
    ensures
        line.len() == 0 || line.last() != '\r' ==> lines_of(line + seq!['\n'] + rest) == seq![line]
            + lines_of(rest),
        lines_of(line + seq!['\r', '\n'] + rest) == seq![line] + lines_of(rest),
        line.len() > 0 ==> lines_of(line) == seq![line],
        lines_of(Seq::<char>::empty()).len() == 0,
{
    first_line_is(line, rest);
    first_line_is(line.push('\r'), rest);
    assert(line.push('\r').drop_last() =~= line);
    assert(line.push('\r') + seq!['\n'] + rest =~= line + seq!['\r', '\n'] + rest);
    index_of_is_first(line, '\n');
    if index_of(line, '\n') is Some {
        let i = index_of(line, '\n')->0;
        assert(line[i] == '\n');
    }
}

/// The first line is what stands before the first line break.
proof fn first_line_is(line: Seq<char>, rest: Seq<char>)
    requires
        forall|k: int| 0 <= k < line.len() ==> (#[trigger] line[k]) != '\n',
    ensures
        lines_of(line + seq!['\n'] + rest) == seq![without_cr(line)] + lines_of(rest),
{
    let s = line + seq!['\n'] + rest;
    let n = line.len() as int;
    assert(s[n] == '\n');
    assert forall|j: int| 0 <= j < n implies s[j] != '\n' by {
        assert(s[j] == line[j]);
    }
    index_of_unique(s, '\n', n);
    assert(s.take(n) =~= line);
    assert(s.skip(n + 1) =~= rest);
}

/// Lower case changes capital ASCII letters and nothing else.
pub proof fn lowering_changes_capitals(s: Seq<char>, k: int)
    requires
        0 <= k < s.len(),
    ensures
        lowered(s).len() == s.len(),
        !('A' <= s[k] <= 'Z') ==> lowered(s)[k] == s[k],
        'A' <= s[k] <= 'Z' ==> lowered(s)[k] as u32 == s[k] as u32 + 32,
{
}

} // verus!
