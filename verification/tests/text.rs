//! Text, order and paths.

use clhorde::config::{
    config_file, data_dir, history_line, history_path, load_templates, parse_history, templates_in,
};
use clhorde::order::{comes_before, name_set, NameMap, NameSet};
use clhorde::paths::join_path;
use clhorde::text::{
    is_alphanumeric, is_digit, is_white, join, lines, number, pad, parse_number, replace,
    signed_number, split, to_ascii_lower, trim, trim_end, trim_start,
};
use clhorde::time::{milliseconds, seconds};

#[test]
fn white_space_is_that_of_unicode() {
    for n in 0..=0x10ffffu32 {
        if let Some(c) = char::from_u32(n) {
            assert_eq!(is_white(c), c.is_whitespace(), "at {n:x}");
            assert_eq!(is_digit(c), c.is_ascii_digit(), "at {n:x}");
            assert_eq!(is_alphanumeric(c), c.is_ascii_alphanumeric(), "at {n:x}");
        }
    }
}

#[test]
fn texts_are_trimmed_and_split() {
    for s in ["", " ", "a", " a b ", "\u{a0}x\u{3000}\n", "\t\n"] {
        assert_eq!(trim(s), s.trim());
        assert_eq!(trim_start(s), s.trim_start());
        assert_eq!(trim_end(s), s.trim_end());
    }
    for s in ["", "a", "a\n", "a\nb", "a\r\nb\r\n", "\n\n", "a\rb"] {
        assert_eq!(lines(s), s.lines().collect::<Vec<&str>>());
    }
    for s in ["", ",", "a,b", ",a,,b,"] {
        let got: Vec<&str> = split(s, ',', false);
        let want: Vec<&str> = s.split(',').collect();
        assert_eq!(got, want);
    }
}

#[test]
fn texts_are_replaced_and_joined() {
    for (s, pat, to) in [("aaa", "aa", "b"), ("abcabc", "bc", ""), ("x", "y", "z"), ("", "a", "b")] {
        assert_eq!(replace(s, pat, to), s.replace(pat, to));
    }
    let parts = vec!["a".to_string(), "b".to_string()];
    assert_eq!(join(&parts, ", "), "a, b");
    assert_eq!(join(&vec![], ", "), "");
    assert_eq!(pad("ab", 4), "ab  ");
    assert_eq!(pad("abcde", 4), "abcde");
    assert_eq!(to_ascii_lower("AbC\u{c4}"), "abc\u{c4}");
}

#[test]
fn numbers_are_written_and_read() {
    for n in [0u128, 7, 10, 1234567890, u64::MAX as u128, u128::MAX] {
        assert_eq!(number(n), n.to_string());
    }
    for n in [0i64, -1, 42, i64::MIN, i64::MAX] {
        assert_eq!(signed_number(n), n.to_string());
    }
    for s in ["0", "007", "+7", "18446744073709551615", "18446744073709551616", "", "+", "-1", "1a"] {
        assert_eq!(parse_number(s, u64::MAX), s.parse::<u64>().ok());
    }
    assert_eq!(parse_number("256", 255), None);
}

#[test]
fn names_are_ordered_as_texts_are() {
    let names = ["", "a", "ab", "b", "Z", "\u{e9}", "\u{4e2d}", "a\u{10000}"];
    for a in names {
        for b in names {
            assert_eq!(comes_before(a, b), a < b);
        }
    }
    let mut set = NameSet::new();
    assert!(set.insert("b".to_string()));
    assert!(set.insert("a".to_string()));
    assert!(!set.insert("b".to_string()));
    assert_eq!(set.to_list(), vec!["a", "b"]);
    let other = name_set(&vec!["b".to_string()]);
    assert_eq!(set.difference(&other).to_list(), vec!["a"]);
    assert!(set.remove("a"));
    assert!(!set.remove("a"));
    let mut map = NameMap::new();
    map.insert("k".to_string(), 1);
    map.insert("k".to_string(), 2);
    map.insert("j".to_string(), 3);
    assert_eq!(map.get("k"), Some(&2));
    assert_eq!(map.names(), &vec!["j".to_string(), "k".to_string()]);
}

#[test]
fn paths_are_joined() {
    assert_eq!(join_path("/a", "b"), "/a/b");
    assert_eq!(join_path("/a/", "b"), "/a/b");
    assert_eq!(join_path("/a", "/b"), "/b");
    assert_eq!(join_path("", "b"), "b");
    assert_eq!(data_dir(&Some("/d".into())), Some("/d/clhorde".into()));
    assert_eq!(data_dir(&None), None);
    assert_eq!(
        config_file(Some("/x".into()), &Some("/h".into()), "keymap.toml"),
        Some("/x/clhorde/keymap.toml".into())
    );
    assert_eq!(
        config_file(None, &Some("/h".into()), "keymap.toml"),
        Some("/h/.config/clhorde/keymap.toml".into())
    );
    assert!(history_path(&Some("/d/clhorde".into())).is_some());
}

#[test]
fn a_history_entry_is_read_back() {
    let entries = ["one line", "two\nlines", "back\\slash\\n", ""];
    let mut file = String::new();
    for e in entries {
        file.push_str(&history_line(e));
    }
    let read = parse_history(&file);
    assert_eq!(read[0], "one line");
    assert_eq!(read[1], "two\nlines");
}

#[test]
fn durations_count_nanoseconds() {
    assert_eq!(seconds(2), 2_000_000_000);
    assert_eq!(milliseconds(3), 3_000_000);
}

#[test]
fn templates_are_those_of_the_section() {
    let pair = |k: &str| vec![(k.to_string(), "t".to_string())];
    assert_eq!(load_templates(Some(Some(pair("a"))), Some(pair("b"))), pair("a"));
    assert!(load_templates(Some(None), Some(pair("b"))).is_empty());
    assert_eq!(load_templates(None, Some(pair("b"))), pair("b"));
    assert!(load_templates(None, None).is_empty());
}

#[test]
fn a_flat_file_of_templates_is_read_by_name() {
    let pair = |k: &str, v: &str| (k.to_string(), v.to_string());
    let flat = "review = \"Review:\\n{x}\"\nfix = 'Fix it'\n";
    assert_eq!(
        templates_in(None, flat),
        vec![pair("fix", "Fix it"), pair("review", "Review:\n{x}")]
    );
    assert!(templates_in(Some(None), flat).is_empty());
    assert_eq!(templates_in(Some(Some(vec![pair("a", "b")])), flat), vec![pair("a", "b")]);
    assert!(templates_in(None, "").is_empty());
    assert!(templates_in(None, "not toml").is_empty());
    assert!(templates_in(None, "count = 3\nfix = 'Fix it'\n").is_empty());
}
