use gredit::text::{push_decimal, split_lines};

fn decimal(n: u64) -> String {
    let mut s = String::new();
    push_decimal(&mut s, n);
    s
}

#[test]
fn decimal_matches_display() {
    for n in [0u64, 7, 10, 42, 99, 100, 1234567890, u64::MAX] {
        assert_eq!(decimal(n), n.to_string());
    }
}

#[test]
fn decimal_appends() {
    let mut s = "line ".to_string();
    push_decimal(&mut s, 305);
    assert_eq!(s, "line 305");
}

#[test]
fn split_lines_keeps_terminators() {
    assert_eq!(split_lines("a\nbc\n"), vec!["a\n", "bc\n"]);
}

#[test]
fn split_lines_keeps_last_unterminated_line() {
    assert_eq!(split_lines("a\n\nb"), vec!["a\n", "\n", "b"]);
}

#[test]
fn split_lines_of_empty_text_is_empty() {
    assert!(split_lines("").is_empty());
}

#[test]
fn split_lines_concatenate_to_text() {
    let text = "fn main() {\n    println!(\"héllo\");\n}\n\n// end";
    assert_eq!(split_lines(text).concat(), text);
}
