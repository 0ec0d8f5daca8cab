//! Settings, the prompt history and the prompt templates.

use vstd::prelude::*;
use vstd::string::*;

use crate::paths::{join_path, joined_path};
use crate::text;

verus! {

/// Controls whether git worktrees are cleaned up automatically or manually.
#[derive(Debug, Clone, Copy, PartialEq, Eq, Structural)]
pub enum WorktreeCleanup {
    Manual,
    Auto,
}

// ---------------------------------------------------------------------
// Places
// ---------------------------------------------------------------------

/// The file or directory `name` below `dir`, where that is known.
pub open spec fn below(dir: Option<Seq<char>>, name: Seq<char>) -> Option<Seq<char>> {
    match dir {
        Some(d) => Some(joined_path(d, name)),
        None => None,
    }
}

/// The file or directory `name` below `dir`, where that is known.
fn find_below(dir: &Option<String>, name: &str) -> (r: Option<String>)
    ensures
        text::text_option(r) == below(text::text_option(*dir), name@),
{
    match dir {
        Some(d) => Some(join_path(d.as_str(), name)),
        None => None,
    }
}

/// The data directory, below the data directory of the user.
pub fn data_dir(user_data_dir: &Option<String>) -> (r: Option<String>)
    ensures
        text::text_option(r) == below(text::text_option(*user_data_dir), "clhorde"@),
{
    find_below(user_data_dir, "clhorde")
}

/// The file of the prompt history, in the data directory.
pub fn history_path(data_dir: &Option<String>) -> (r: Option<String>)
    ensures
        text::text_option(r) == below(text::text_option(*data_dir), "history"@),
{
    find_below(data_dir, "history")
}

/// The configuration directory of the user.
pub open spec fn user_config_dir(xdg: Option<Seq<char>>, home: Option<Seq<char>>) -> Option<
    Seq<char>,
> {
    match xdg {
        Some(d) => Some(d),
        None => below(home, ".config"@),
    }
}

/// The configuration file `name`, by what `$XDG_CONFIG_HOME` and `$HOME` hold.
pub fn config_file(xdg: Option<String>, home: &Option<String>, name: &str) -> (r: Option<String>)
    ensures
        text::text_option(r) == below(
            below(user_config_dir(text::text_option(xdg), text::text_option(*home)), "clhorde"@),
            name@,
        ),
{
    let dir: Option<String> = match xdg {
        Some(d) => Some(d),
        None => find_below(home, ".config"),
    };
    let dir: Option<String> = find_below(&dir, "clhorde");
    find_below(&dir, name)
}

/// The file of the prompt templates.
pub fn templates_path(xdg: Option<String>, home: &Option<String>) -> (r: Option<String>)
    ensures
        text::text_option(r) == below(
            below(user_config_dir(text::text_option(xdg), text::text_option(*home)), "clhorde"@),
            "templates.toml"@,
        ),
{
    config_file(xdg, home, "templates.toml")
}

// ---------------------------------------------------------------------
// The prompt history
// ---------------------------------------------------------------------

/// The entries on some lines: a line break within an entry is written as a
/// backslash and an `n`; an empty line is no entry.
pub open spec fn entries_on(lines: Seq<Seq<char>>) -> Seq<Seq<char>>
    decreases lines.len(),
{
    if lines.len() == 0 {
        Seq::empty()
    } else {
        let before = entries_on(lines.drop_last());
        if lines.last().len() == 0 {
            before
        } else {
            before.push(text::replaced(lines.last(), "\\n"@, "\n"@))
        }
    }
}

/// The entries in a history file.
pub open spec fn history_in(content: Seq<char>) -> Seq<Seq<char>> {
    entries_on(text::lines_of(content))
}

/// The line for an entry.
pub open spec fn entry_line(entry: Seq<char>) -> Seq<char> {
    text::replaced(entry, "\n"@, "\\n"@) + "\n"@
}

/// The entries in a history file.
pub fn parse_history(content: &str) -> (r: Vec<String>)
    ensures
        text::texts(r@) == history_in(content@),
{
    let lines: Vec<&str> = text::lines(content);
    let ghost all = text::lines_of(content@);
    let mut out: Vec<String> = Vec::new();
    let mut i: usize = 0;
    proof {
        assert(text::texts(out@) =~= entries_on(all.take(0)));
    }
    while i < lines.len()
        invariant
            i <= lines.len(),
            text::slices(lines@) == all,
            text::texts(out@) == entries_on(all.take(i as int)),
        decreases lines.len() - i,
    {
        let ghost o = out@;
        proof {
            assert(all.take(i + 1).drop_last() =~= all.take(i as int));
            assert(text::slices(lines@)[i as int] == lines@[i as int]@);
            reveal_strlit("\\n");
        }
        if lines[i].unicode_len() > 0 {
            out.push(text::replace(lines[i], "\\n", "\n"));
            proof {
                assert(text::texts(out@) =~= text::texts(o).push(out@.last()@));
            }
        }
        i = i + 1;
    }
    proof {
        assert(all.take(all.len() as int) =~= all);
    }
    out
}

/// The line to put behind a history file for a new entry.
pub fn history_line(entry: &str) -> (r: String)
    ensures
        r@ == entry_line(entry@),
{
    proof {
        reveal_strlit("\n");
    }
    let mut out: String = text::replace(entry, "\n", "\\n");
    out.append("\n");
    out
}

/// `t` with each line break written as a backslash and an `n`.
spec fn escaped(t: Seq<char>) -> Seq<char>
    decreases t.len(),
{
    if t.len() == 0 {
        Seq::empty()
    } else if t[0] == '\n' {
        seq!['\\', 'n'] + escaped(t.skip(1))
    } else {
        seq![t[0]] + escaped(t.skip(1))
    }
}

/// Replacing the line breaks is escaping them.
proof fn replaced_is_escaped(t: Seq<char>, i: int)
    requires
        0 <= i <= t.len(),
    ensures
        text::replaced_from(t, "\n"@, "\\n"@, i) == escaped(t.skip(i)),
    decreases t.len() - i,
{
    reveal_strlit("\n");
    reveal_strlit("\\n");
    let pat = "\n"@;
    assert(pat =~= seq!['\n']);
    assert("\\n"@ =~= seq!['\\', 'n']);
    if i == t.len() {
        text::find_from_is_first(t, pat, i);
        assert(t.skip(i) =~= Seq::<char>::empty());
    } else {
        replaced_is_escaped(t, i + 1);
        assert(t.skip(i).skip(1) =~= t.skip(i + 1));
        assert(t.skip(i)[0] == t[i]);
        if t[i] == '\n' {
            assert(t.subrange(i, i + 1) =~= pat);
            assert(text::occurs_at(t, pat, i));
            text::replaced_takes(t, pat, "\\n"@, i);
        } else {
            assert(!text::occurs_at(t, pat, i)) by {
                if text::occurs_at(t, pat, i) {
                    assert(t.subrange(i, i + 1)[0] == t[i]);
                }
            }
            text::replaced_skips(t, pat, "\\n"@, i);
        }
    }
}

/// What is escaped holds no line break, ends in a carriage return only where
/// the text does, and is empty only where the text is.
proof fn escaped_is_a_line(t: Seq<char>)
    ensures
        !escaped(t).contains('\n'),
        (escaped(t).len() == 0) == (t.len() == 0),
        t.len() > 0 && t.last() != '\r' ==> escaped(t).last() != '\r',
    decreases t.len(),
{
    if t.len() > 0 {
        let rest = t.skip(1);
        escaped_is_a_line(rest);
        let head = if t[0] == '\n' { seq!['\\', 'n'] } else { seq![t[0]] };
        assert(escaped(t) == head + escaped(rest));
        assert forall|k: int| 0 <= k < escaped(t).len() implies escaped(t)[k] != '\n' by {
            if k >= head.len() {
                assert(escaped(rest)[k - head.len()] == escaped(t)[k]);
                assert(escaped(rest).contains(escaped(rest)[k - head.len()]));
            }
        }
        if rest.len() > 0 {
            assert(rest.last() == t.last());
            assert(escaped(t).last() == escaped(rest).last());
        } else {
            assert(escaped(t) =~= head);
        }
    }
}

/// Undoing the escapes gives the text back.
proof fn escaped_is_undone(t: Seq<char>, i: int, k: int)
    requires
        0 <= i <= t.len(),
        0 <= k <= escaped(t).len(),
        escaped(t).skip(k) == escaped(t.skip(i)),
        forall|j: int| 0 <= j < t.len() - 1 ==> !(#[trigger] t[j] == '\\' && t[j + 1] == 'n'),
    ensures
        text::replaced_from(escaped(t), "\\n"@, "\n"@, k) == t.skip(i),
    decreases t.len() - i,
{
    let e = escaped(t);
    let pat = "\\n"@;
    reveal_strlit("\n");
    reveal_strlit("\\n");
    assert(pat =~= seq!['\\', 'n']);
    assert("\n"@ =~= seq!['\n']);
    let rest = t.skip(i);
    if i == t.len() {
        assert(e.skip(k).len() == 0);
        text::find_from_is_first(e, pat, k);
        assert(e.skip(k) =~= t.skip(i));
    } else {
        assert(rest.skip(1) =~= t.skip(i + 1));
        assert(rest[0] == t[i]);
        let tail = e.skip(k);
        escaped_is_a_line(rest);
        assert(tail.len() > 0);
        assert(e[k] == tail[0]);
        if t[i] == '\n' {
            assert(tail == seq!['\\', 'n'] + escaped(t.skip(i + 1)));
            assert(e.subrange(k, k + 2) =~= pat) by {
                assert(e[k] == tail[0]);
                assert(e[k + 1] == tail[1]);
            }
            text::replaced_takes(e, pat, "\n"@, k);
            assert(e.skip(k + 2) =~= tail.skip(2));
            assert(tail.skip(2) =~= escaped(t.skip(i + 1)));
            escaped_is_undone(t, i + 1, k + 2);
            assert(seq!['\n'] + t.skip(i + 1) =~= t.skip(i));
        } else {
            assert(tail == seq![t[i]] + escaped(t.skip(i + 1)));
            assert(!text::occurs_at(e, pat, k)) by {
                if text::occurs_at(e, pat, k) {
                    assert(e.subrange(k, k + 2)[0] == e[k]);
                    assert(e.subrange(k, k + 2)[1] == e[k + 1]);
                    assert(e[k + 1] == tail[1]);
                    assert(tail[1] == escaped(t.skip(i + 1))[0]);
                    escaped_is_a_line(t.skip(i + 1));
                    assert(t.skip(i + 1).len() > 0);
                    assert(t.skip(i + 1)[0] == t[i + 1]);
                    assert(t[i] == '\\');
                }
            }
            text::replaced_skips(e, pat, "\n"@, k);
            assert(e.skip(k + 1) =~= tail.skip(1));
            assert(tail.skip(1) =~= escaped(t.skip(i + 1)));
            escaped_is_undone(t, i + 1, k + 1);
            assert(seq![t[i]] + t.skip(i + 1) =~= t.skip(i));
        }
    }
}

/// An entry put behind a history is read back from it, behind all the others,
/// unless it is empty, ends in a carriage return, or holds a backslash with an
/// `n` behind it.
pub proof fn entry_is_read_back(content: Seq<char>, entry: Seq<char>)
    requires
        content.len() == 0 || content.last() == '\n',
        entry.len() > 0,
        entry.last() != '\r',
        forall|j: int|
            0 <= j < entry.len() - 1 ==> !(#[trigger] entry[j] == '\\' && entry[j + 1] == 'n'),
    ensures
        history_in(content + entry_line(entry)) == history_in(content).push(entry),
{
    reveal_strlit("\n");
    let e = escaped(entry);
    let line = entry_line(entry);
    replaced_is_escaped(entry, 0);
    assert(entry.skip(0) =~= entry);
    escaped_is_a_line(entry);
    assert(line =~= e.push('\n'));
    text::lines_of_more(content, line);
    assert(text::lines_of(line) =~= seq![e]) by {
        assert(line[e.len() as int] == '\n');
        assert forall|j: int| 0 <= j < e.len() implies line[j] != '\n' by {
            assert(line[j] == e[j]);
            assert(e.contains(e[j]));
        }
        text::index_of_unique(line, '\n', e.len() as int);
        assert(line.take(e.len() as int) =~= e);
        let behind = line.skip(e.len() as int + 1);
        assert(behind.len() == 0);
        assert(text::lines_of(behind) =~= Seq::<Seq<char>>::empty());
        assert(text::without_cr(e) == e);
    }
    let before = text::lines_of(content);
    let all = before + seq![e];
    assert(all.drop_last() =~= before);
    assert(all.last() == e);
    assert(e.skip(0) =~= e);
    escaped_is_undone(entry, 0, 0);
}

// ---------------------------------------------------------------------
// The prompt templates
// ---------------------------------------------------------------------

/// The texts at the top of a TOML document, each with its key, by key; nothing
/// where the document cannot be read or anything else stands there.
pub uninterp spec fn toml_texts(content: Seq<char>) -> Option<Seq<(Seq<char>, Seq<char>)>>;

/// `toml::from_str` into a map from texts to texts, listed by key. What a TOML
/// document means is left to the `toml` crate; the same document always gives
/// the same texts or is always refused.
#[verifier::external_body]
fn read_toml_texts(content: &str) -> (r: Option<Vec<(String, String)>>)
    ensures
        match r {
            Some(ps) => toml_texts(content@) == Some(text::pairs_of(ps@)),
            None => toml_texts(content@) is None,
        },
{
    let texts = toml::from_str::<std::collections::BTreeMap<String, String>>(content);
    texts.ok().map(|t| t.into_iter().collect())
}

/// Prompt templates, from what `templates.toml` holds: those under
/// `[templates]` where the file reads as one with such a section, which may be
/// absent; otherwise the file's own texts, by name.
pub fn templates_in(
    sectioned: Option<Option<Vec<(String, String)>>>,
    content: &str,
) -> (r: Vec<(String, String)>)
    ensures
        text::pairs_of(r@) == match sectioned {
            Some(Some(ts)) => text::pairs_of(ts@),
            Some(None) => Seq::empty(),
            None => match toml_texts(content@) {
                Some(ts) => ts,
                None => Seq::empty(),
            },
        },
{
    let flat: Option<Vec<(String, String)>> = match &sectioned {
        Some(_) => None,
        None => read_toml_texts(content),
    };
    let templates: Vec<(String, String)> = load_templates(sectioned, flat);
    proof {
        if templates@.len() == 0 {
            assert(text::pairs_of(templates@) =~= Seq::empty());
        }
    }
    templates
}

/// Prompt templates, from the two ways to read `templates.toml`: with a section
/// `[templates]`, which may be absent, or, where it does not read so, as texts
/// by name.
pub fn load_templates(
    sectioned: Option<Option<Vec<(String, String)>>>,
    flat: Option<Vec<(String, String)>>,
) -> (r: Vec<(String, String)>)
    ensures
        r@ == match sectioned {
            Some(Some(ts)) => ts@,
            Some(None) => Seq::empty(),
            None => match flat {
                Some(ts) => ts@,
                None => Seq::empty(),
            },
        },
{
    match sectioned {
        Some(Some(templates)) => templates,
        Some(None) => Vec::new(),
        None => match flat {
            Some(templates) => templates,
            None => Vec::new(),
        },
    }
}

/// The history has an entry for each line that is not empty, in order, with its
/// line breaks back; an entry is written on one line, with its line breaks as a
/// backslash and an `n`.
pub proof fn history_is_a_line_per_entry(lines: Seq<Seq<char>>, line: Seq<char>)
    ensures
        line.len() > 0 ==> entries_on(lines.push(line)) == entries_on(lines).push(
            text::replaced(line, "\\n"@, "\n"@),
        ),
        line.len() == 0 ==> entries_on(lines.push(line)) == entries_on(lines),
        entry_line(line) == text::replaced(line, "\n"@, "\\n"@) + "\n"@,
{
    assert(lines.push(line).drop_last() =~= lines);
}

} // verus!
