use edbuf::text::{from_chars, split_framed, to_chars};

fn chars(text: &str) -> Vec<char> {
    text.chars().collect()
}

fn strings(texts: &[&str]) -> Vec<String> {
    texts.iter().map(|t| t.to_string()).collect()
}

#[test]
fn to_chars_lists_the_characters() {
    assert_eq!(to_chars("héllo\n"), vec!['h', 'é', 'l', 'l', 'o', '\n']);
    assert_eq!(to_chars(""), Vec::<char>::new());
}

#[test]
fn from_chars_builds_the_part_asked_for() {
    let text = chars("héllo");
    assert_eq!(from_chars(&text, 0, 5), "héllo");
    assert_eq!(from_chars(&text, 1, 3), "él");
    assert_eq!(from_chars(&text, 2, 2), "");
}

#[test]
fn split_framed_ends_each_line_with_one_newline() {
    assert_eq!(split_framed(&chars("a\nb\nc\n")), strings(&["a\n", "b\n", "c\n"]));
    assert_eq!(split_framed(&chars("a\nb")), strings(&["a\n", "b\n"]));
    assert_eq!(split_framed(&chars("\n\n")), strings(&["\n", "\n"]));
    assert_eq!(split_framed(&chars("")), strings(&[]));
}

#[test]
fn split_framed_drops_a_return_before_a_newline_only() {
    assert_eq!(split_framed(&chars("a\r\nb\r\n")), strings(&["a\n", "b\n"]));
    assert_eq!(split_framed(&chars("a\rb\n")), strings(&["a\rb\n"]));
    assert_eq!(split_framed(&chars("a\n\r")), strings(&["a\n", "\r\n"]));
    assert_eq!(split_framed(&chars("a\r\r\n")), strings(&["a\r\n"]));
}

#[test]
fn split_framed_agrees_with_the_standard_line_splitter() {
    for text in ["", "x", "x\n", "x\ny", "\n", "\r\n", "a\r\n\r\nb", "a\n\nb\n", "\r", "a\r"] {
        let expected: Vec<String> = text.lines().map(|l| format!("{}\n", l)).collect();
        assert_eq!(split_framed(&chars(text)), expected);
    }
}
