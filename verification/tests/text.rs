use git_repos::text::{
    append_range, chars_of, comes_before, contains, has_char, is_space, matches_at, same_text,
    split_lines, split_words, starts_with, string_of_range, trim_range,
};

fn c(s: &str) -> Vec<char> {
    s.chars().collect()
}

fn strings(parts: Vec<Vec<char>>) -> Vec<String> {
    parts.into_iter().map(|p| p.into_iter().collect()).collect()
}

#[test]
fn chars_and_back() {
    assert_eq!(chars_of("a\u{e9}\u{2193}"), vec!['a', '\u{e9}', '\u{2193}']);
    assert_eq!(chars_of(""), Vec::<char>::new());
    assert_eq!(string_of_range(&c("h\u{e9}llo"), 0, 5), "h\u{e9}llo");
    assert_eq!(string_of_range(&c("hello"), 1, 3), "el");
    assert_eq!(string_of_range(&c("hello"), 2, 2), "");
    let mut s = "ab".to_string();
    append_range(&mut s, &c("cdef"), 1, 3);
    assert_eq!(s, "abde");
}

#[test]
fn same_text_and_has_char() {
    assert!(same_text("clean", "clean"));
    assert!(!same_text("clean", "Clean"));
    assert!(!same_text("clean", "clean "));
    assert!(same_text("", ""));
    assert!(has_char("\u{2191}1 \u{2193}2", '\u{2193}'));
    assert!(!has_char("\u{2191}1", '\u{2193}'));
    assert!(!has_char("", 'a'));
}

#[test]
fn substring_search() {
    assert!(contains(&c("github.com/x"), &c("github.com")));
    assert!(contains(&c("https://github.com"), &c("github.com")));
    assert!(contains(&c("abc"), &c("")));
    assert!(contains(&c(""), &c("")));
    assert!(contains(&c("abc"), &c("abc")));
    assert!(contains(&c("aab"), &c("ab")));
    assert!(!contains(&c("abc"), &c("abcd")));
    assert!(!contains(&c("abc"), &c("ac")));
    assert!(!contains(&c(""), &c("a")));
    assert!(matches_at(&c("abcd"), &c("bc"), 1));
    assert!(!matches_at(&c("abcd"), &c("bc"), 2));
    assert!(matches_at(&c("abcd"), &c(""), 4));
}

#[test]
fn prefix_test() {
    assert!(starts_with(&c("ref: refs/heads/x"), &c("ref: ")));
    assert!(starts_with(&c("abc"), &c("")));
    assert!(starts_with(&c("abc"), &c("abc")));
    assert!(!starts_with(&c("abc"), &c("abcd")));
    assert!(!starts_with(&c("abc"), &c("b")));
}

#[test]
fn dictionary_order() {
    assert!(comes_before(&c("a"), &c("b")));
    assert!(comes_before(&c(""), &c("a")));
    assert!(comes_before(&c("ab"), &c("abc")));
    assert!(comes_before(&c("Z"), &c("a")));
    assert!(comes_before(&c("a-b"), &c("a/b")));
    assert!(comes_before(&c("z"), &c("\u{e9}")));
    assert!(!comes_before(&c("a"), &c("a")));
    assert!(!comes_before(&c(""), &c("")));
    assert!(!comes_before(&c("b"), &c("a")));
    assert!(!comes_before(&c("abc"), &c("ab")));
    for (x, y) in [("proj/x", "proj-old"), ("a", "B"), ("", "x"), ("same", "same")] {
        assert_eq!(comes_before(&c(x), &c(y)), x < y);
        assert_eq!(comes_before(&c(y), &c(x)), y < x);
    }
}

#[test]
fn white_space_is_what_std_calls_white_space() {
    for code in 0u32..0x3100 {
        if let Some(ch) = char::from_u32(code) {
            assert_eq!(is_space(ch), ch.is_whitespace(), "U+{:04X}", code);
        }
    }
    assert!(!is_space('\u{feff}'));
    assert!(!is_space('\u{10ffff}'));
}

#[test]
fn trim_range_gives_the_bounds_of_the_trimmed_text() {
    let v = c("  \tab c\r\n ");
    assert_eq!(trim_range(&v, 0, v.len()), (3, 7));
    assert_eq!(trim_range(&v, 4, 6), (4, 5));
    let blank = c(" \n ");
    let (a, b) = trim_range(&blank, 0, 3);
    assert_eq!(a, b);
    assert_eq!(trim_range(&c(""), 0, 0), (0, 0));
    assert_eq!(trim_range(&c("x"), 0, 1), (0, 1));
    for s in ["  a b  ", "\u{a0}x\u{3000}", "", " ", "abc", "\n\ta"] {
        let v = c(s);
        let (a, b) = trim_range(&v, 0, v.len());
        assert_eq!(string_of_range(&v, a, b), s.trim());
    }
}

#[test]
fn words_are_split_at_white_space() {
    assert_eq!(strings(split_words(&c("3\t12\n"))), vec!["3", "12"]);
    assert_eq!(strings(split_words(&c("  a  bc d"))), vec!["a", "bc", "d"]);
    assert_eq!(strings(split_words(&c(""))), Vec::<String>::new());
    assert_eq!(strings(split_words(&c(" \n\t"))), Vec::<String>::new());
    for s in ["one", " x\u{a0}y ", "a\r\nb", "tab\tsep  "] {
        let expected: Vec<String> = s.split_whitespace().map(|w| w.to_string()).collect();
        assert_eq!(strings(split_words(&c(s))), expected);
    }
}

#[test]
fn lines_are_split_at_line_feeds() {
    for s in [
        "",
        "\n",
        "a",
        "a\n",
        "a\nb",
        "a\r\nb\r\n",
        "a\r",
        "a\r\n\r\n",
        "\n\na",
        "a\rb\n",
        "\r\n",
        "a\r\r\n",
    ] {
        let expected: Vec<String> = s.lines().map(|l| l.to_string()).collect();
        assert_eq!(strings(split_lines(&c(s))), expected, "{:?}", s);
    }
    assert_eq!(strings(split_lines(&c("x\r\ny"))), vec!["x", "y"]);
}
