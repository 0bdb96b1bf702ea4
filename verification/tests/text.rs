use label_print::text::{chars_of, contains, is_space_char, occurs_in, split_lines, split_whitespace, trim};

fn samples() -> Vec<&'static str> {
    vec![
        "",
        "\n",
        "\r\n",
        "\r",
        "a",
        "a\n",
        "a\nb",
        "a\r\nb\r\n",
        "a\rb\n",
        "a\n\nb\n\n",
        "\n\na",
        "one two  three\tfour\r\nfive\u{a0}six\n   \nlast\r",
        "  lead and trail  ",
        "\u{2003}wide\u{3000}space\u{85}",
        "printer zprint is idle.  enabled since Thu 01 Jan 2024\n\tReady to print\n",
    ]
}

#[test]
fn chars_of_gives_the_characters_in_order() {
    assert_eq!(chars_of("a\u{e9}z"), vec!['a', '\u{e9}', 'z']);
    assert_eq!(chars_of(""), Vec::<char>::new());
}

#[test]
fn is_space_char_agrees_with_the_standard_library() {
    let mut code: u32 = 0;
    while code <= 0x10FFFF {
        if let Some(c) = char::from_u32(code) {
            assert_eq!(is_space_char(c), c.is_whitespace(), "U+{:04X}", code);
        }
        code += 1;
    }
}

#[test]
fn contains_finds_a_substring_anywhere() {
    assert!(contains("printer zprint is idle", "zprint"));
    assert!(contains("zprint", "zprint"));
    assert!(contains("xxzprint", "zprint"));
    assert!(contains("aab", "ab"));
    assert!(!contains("zprin", "zprint"));
    assert!(!contains("", "z"));
    assert!(!contains("z-print", "zprint"));
}

#[test]
fn contains_finds_the_empty_string_everywhere() {
    assert!(contains("", ""));
    assert!(contains("abc", ""));
}

#[test]
fn contains_agrees_with_the_standard_library() {
    let needles = ["", "a", "b", "ab", "two", "\n", " ", "idle.", "zz"];
    for hay in samples() {
        for needle in needles {
            assert_eq!(contains(hay, needle), hay.contains(needle), "{:?} in {:?}", needle, hay);
        }
    }
}

#[test]
fn occurs_in_searches_character_vectors() {
    let hay = vec!['a', 'b', 'c'];
    assert!(occurs_in(&hay, &vec!['b', 'c']));
    assert!(!occurs_in(&hay, &vec!['c', 'b']));
    assert!(!occurs_in(&hay, &vec!['a', 'b', 'c', 'd']));
}

#[test]
fn split_lines_ends_lines_at_line_feeds() {
    assert_eq!(split_lines("a\nb"), vec!["a".to_string(), "b".to_string()]);
    assert_eq!(split_lines("a\nb\n"), vec!["a".to_string(), "b".to_string()]);
    assert_eq!(split_lines("a\n\nb"), vec!["a".to_string(), "".to_string(), "b".to_string()]);
    assert_eq!(split_lines(""), Vec::<String>::new());
    assert_eq!(split_lines("\n"), vec!["".to_string()]);
}

#[test]
fn split_lines_drops_a_carriage_return_before_a_line_feed_only() {
    assert_eq!(split_lines("a\r\nb\r\n"), vec!["a".to_string(), "b".to_string()]);
    assert_eq!(split_lines("a\rb\n"), vec!["a\rb".to_string()]);
    assert_eq!(split_lines("a\r"), vec!["a\r".to_string()]);
    assert_eq!(split_lines("a\r\r\n"), vec!["a\r".to_string()]);
}

#[test]
fn split_lines_agrees_with_the_standard_library() {
    for text in samples() {
        let expected: Vec<String> = text.lines().map(|line| line.to_string()).collect();
        assert_eq!(split_lines(text), expected, "{:?}", text);
    }
}

#[test]
fn split_whitespace_gives_the_runs_between_white_space() {
    assert_eq!(
        split_whitespace("  printer  zprint\tis idle.\n"),
        vec!["printer".to_string(), "zprint".to_string(), "is".to_string(), "idle.".to_string()]
    );
    assert_eq!(split_whitespace(""), Vec::<String>::new());
    assert_eq!(split_whitespace(" \t "), Vec::<String>::new());
    assert_eq!(split_whitespace("one"), vec!["one".to_string()]);
}

#[test]
fn split_whitespace_agrees_with_the_standard_library() {
    for text in samples() {
        let expected: Vec<String> = text.split_whitespace().map(|t| t.to_string()).collect();
        assert_eq!(split_whitespace(text), expected, "{:?}", text);
    }
}

#[test]
fn trim_drops_white_space_at_both_ends() {
    assert_eq!(trim("  y \n"), "y");
    assert_eq!(trim("y"), "y");
    assert_eq!(trim(" a b "), "a b");
    assert_eq!(trim(" \t\r\n"), "");
    assert_eq!(trim(""), "");
}

#[test]
fn trim_agrees_with_the_standard_library() {
    for text in samples() {
        assert_eq!(trim(text), text.trim(), "{:?}", text);
    }
}
