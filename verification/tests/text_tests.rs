use news_summarizer::text::{chars_of, join_strings, join_strs, same_text, split_on};

fn std_split<'a>(s: &'a str, d: &str) -> Vec<&'a str> {
    s.split(d).collect()
}

#[test]
fn split_matches_std_on_plain_delimiters() {
    for (s, d) in [
        ("a.b.c", "."),
        ("no delimiter here", ","),
        ("", "."),
        ("..", "."),
        ("aaa", "aa"),
        ("x--y----z", "--"),
        ("trailing,", ","),
        ("héllo wörld é", "é"),
    ] {
        assert_eq!(split_on(s, d), std_split(s, d), "splitting {:?} on {:?}", s, d);
    }
}

#[test]
fn split_on_empty_delimiter_matches_std() {
    assert_eq!(split_on("abc", ""), vec!["", "a", "b", "c", ""]);
    assert_eq!(split_on("abc", ""), std_split("abc", ""));
    assert_eq!(split_on("", ""), std_split("", ""));
}

#[test]
fn split_takes_leftmost_non_overlapping_matches() {
    assert_eq!(split_on("aaa", "aa"), vec!["", "a"]);
}

#[test]
fn split_then_join_restores_text() {
    for (s, d) in [("a.b..c.", "."), ("aaa", "aa"), ("abc", ""), ("", "x")] {
        let pieces = split_on(s, d);
        assert_eq!(join_strs(&pieces, d), s);
    }
}

#[test]
fn join_puts_separator_between_pieces_only() {
    assert_eq!(join_strs(&vec!["a", "b", "c"], ", "), "a, b, c");
    assert_eq!(join_strs(&vec![], ", "), "");
    assert_eq!(join_strs(&vec!["only"], ", "), "only");
    let owned = vec![String::from("x"), String::from(""), String::from("z")];
    assert_eq!(join_strings(&owned, "\n\n"), "x\n\n\n\nz");
}

#[test]
fn chars_and_text_equality() {
    assert_eq!(chars_of("héllo"), vec!['h', 'é', 'l', 'l', 'o']);
    assert!(same_text("abc", "abc"));
    assert!(!same_text("abc", "abd"));
    assert!(!same_text("abc", "ab"));
    assert!(same_text("", ""));
}
