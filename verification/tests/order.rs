use cargo_pkgman::order::is_less;
use cargo_pkgman::text::{join, lines_of, rsplit_once};

#[test]
fn names_are_ordered_like_strings() {
    let names = ["", "a", "ab", "b", "B", "é", "z", "a-b", "a_b", "10", "9"];
    for left in names {
        for right in names {
            assert_eq!(is_less(left, right), left < right, "{left} {right}");
        }
    }
}

#[test]
fn lines_end_like_those_of_a_string() {
    for text in ["", "a", "a\n", "a\r\nb", "\n\n", "a\r", "a\rb\n\r\n", "é\n"] {
        let expected: Vec<String> = text.lines().map(String::from).collect();
        assert_eq!(lines_of(text), expected);
    }
}

#[test]
fn splitting_and_joining() {
    for (text, pattern) in [("a (b (c)", " ("), ("abc", " "), ("", " "), (" a ", " "), ("aaa", "aa")] {
        assert_eq!(rsplit_once(text, pattern), text.rsplit_once(pattern));
    }
    let parts = vec!["a".to_string(), "".to_string(), "b".to_string()];
    assert_eq!(join(&parts, ", "), parts.join(", "));
    assert_eq!(join(&[], ", "), "");
}
