use nas_notifier::text::{blank, contains, lines, space, trim_end, words};

fn owned(items: &[&str]) -> Vec<String> {
    items.iter().map(|s| s.to_string()).collect()
}

#[test]
fn contains_finds_phrases() {
    assert!(contains("sshd[1]: Accepted publickey for root", "sshd"));
    assert!(contains("sshd[1]: Accepted publickey for root", "Accepted publickey for"));
    assert!(contains("abc", "abc"));
    assert!(contains("abc", "c"));
    assert!(contains("abc", ""));
    assert!(contains("", ""));
    assert!(!contains("", "a"));
    assert!(!contains("ab", "abc"));
    assert!(!contains("ssh d", "sshd"));
    assert!(!contains("Accepted publickey fo", "Accepted publickey for"));
    assert!(contains("aaab", "aab"));
}

#[test]
fn contains_agrees_with_std() {
    let hays = ["", "a", "ab", "aab", "abab", "sshd", "xsshdx", "ss hd", "\u{e9}sshd\u{4e16}"];
    let needles = ["", "a", "b", "ab", "aab", "sshd", "hd", "\u{e9}", "\u{4e16}x"];
    for hay in hays {
        for needle in needles {
            assert_eq!(contains(hay, needle), hay.contains(needle), "{:?} in {:?}", needle, hay);
        }
    }
}

#[test]
fn lines_keep_wide_characters() {
    assert_eq!(lines("a\u{e9}\u{4e16}z\n\u{1f600}"), owned(&["a\u{e9}\u{4e16}z", "\u{1f600}"]));
}

#[test]
fn lines_splits_at_line_feeds() {
    assert_eq!(lines("one\ntwo\nthree\n"), owned(&["one", "two", "three"]));
    assert_eq!(lines("one\ntwo\nthree"), owned(&["one", "two", "three"]));
    assert_eq!(lines(""), Vec::<String>::new());
    assert_eq!(lines("\n"), owned(&[""]));
    assert_eq!(lines("\n\n"), owned(&["", ""]));
    assert_eq!(lines("a\n\nb"), owned(&["a", "", "b"]));
}

#[test]
fn lines_drops_a_return_before_a_line_feed_only() {
    assert_eq!(lines("one\r\ntwo\r\n"), owned(&["one", "two"]));
    assert_eq!(lines("one\r\r\ntwo"), owned(&["one\r", "two"]));
    assert_eq!(lines("one\rtwo\n"), owned(&["one\rtwo"]));
    assert_eq!(lines("one\ntwo\r"), owned(&["one", "two\r"]));
    assert_eq!(lines("\r\n"), owned(&[""]));
    assert_eq!(lines("\r"), owned(&["\r"]));
}

#[test]
fn lines_agrees_with_std() {
    let texts = [
        "",
        "\n",
        "\r",
        "\r\n",
        "a",
        "a\n",
        "a\r\n",
        "a\r",
        "a\n\r",
        "a\r\r\n",
        "a\nb",
        "a\r\nb\r\n",
        "\n\na\n\n",
        "x\u{e9}\ny\u{4e16}\r\n",
        " lead\ntrail \n",
    ];
    for text in texts {
        let expected: Vec<String> = text.lines().map(|l| l.to_string()).collect();
        assert_eq!(lines(text), expected, "{:?}", text);
    }
}

#[test]
fn words_splits_at_blanks() {
    assert_eq!(words("from 203.0.113.7 port 22"), owned(&["from", "203.0.113.7", "port", "22"]));
    assert_eq!(words("  a \t b\n"), owned(&["a", "b"]));
    assert_eq!(words(""), Vec::<String>::new());
    assert_eq!(words(" \t\r\n\u{c}"), Vec::<String>::new());
    assert_eq!(words("one"), owned(&["one"]));
}

#[test]
fn words_keeps_what_is_no_blank_of_ascii() {
    assert_eq!(words("a\u{b}b"), owned(&["a\u{b}b"]));
    assert_eq!(words("a\u{a0}b c"), owned(&["a\u{a0}b", "c"]));
    assert_eq!(words("a\u{2003}b"), owned(&["a\u{2003}b"]));
}

#[test]
fn words_agrees_with_std() {
    let texts = [
        "",
        " ",
        "a",
        " a",
        "a ",
        "a b",
        "a  b",
        "\ta\tb\t",
        "a\u{b}b c",
        "a\u{c}b",
        "a\rb\nc",
        "\u{e9} \u{4e16}",
        "Accepted publickey for root from 203.0.113.7 port 51234 ssh2",
    ];
    for text in texts {
        let expected: Vec<String> = text.split_ascii_whitespace().map(|w| w.to_string()).collect();
        assert_eq!(words(text), expected, "{:?}", text);
    }
}

#[test]
fn blank_knows_the_five_blanks() {
    for c in [' ', '\t', '\n', '\u{c}', '\r'] {
        assert!(blank(c));
    }
    for c in ['\u{b}', 'a', '0', '\u{a0}', '\u{0}', '\u{85}'] {
        assert!(!blank(c));
    }
}

#[test]
fn blank_agrees_with_std() {
    for n in 0u32..0x3100 {
        if let Some(c) = char::from_u32(n) {
            assert_eq!(blank(c), c.is_ascii_whitespace(), "{:?}", c);
        }
    }
}

#[test]
fn space_agrees_with_std() {
    for n in 0u32..0x11_0000 {
        if let Some(c) = char::from_u32(n) {
            assert_eq!(space(c), c.is_whitespace(), "{:?}", c);
        }
    }
}

#[test]
fn trim_end_removes_trailing_white_space() {
    assert_eq!(trim_end("line  "), "line");
    assert_eq!(trim_end("line\r"), "line");
    assert_eq!(trim_end("line \t\u{a0}\u{2003}\u{3000}"), "line");
    assert_eq!(trim_end("  line"), "  line");
    assert_eq!(trim_end("a b "), "a b");
    assert_eq!(trim_end(""), "");
    assert_eq!(trim_end("   "), "");
    assert_eq!(trim_end("line\u{200b}"), "line\u{200b}");
}

#[test]
fn trim_end_agrees_with_std() {
    let texts = ["", " ", "a", "a ", " a", "a\t\n", "a\u{85}", "a\u{1680}\u{2028}", "a \u{e9} "];
    for text in texts {
        assert_eq!(trim_end(text), text.trim_end(), "{:?}", text);
    }
}
