use lai::text::{chars_of, join_strings, lines_of, push_decimal, trim_str};

#[test]
fn trimming() {
    assert_eq!(trim_str("  a b \t\n"), "a b");
    assert_eq!(trim_str("\u{3000}x\u{a0}"), "x");
    assert_eq!(trim_str("   "), "");
}

#[test]
fn decimals() {
    let mut s = String::from("n=");
    push_decimal(&mut s, 0);
    push_decimal(&mut s, 1_048_576);
    assert_eq!(s, "n=01048576");
}

#[test]
fn splitting_lines() {
    let v = chars_of("a\r\nb\n\nc\r");
    let lines: Vec<String> = lines_of(&v).into_iter().map(|l| l.into_iter().collect()).collect();
    assert_eq!(lines, "a\r\nb\n\nc\r".lines().map(|l| l.to_string()).collect::<Vec<_>>());
    assert!(lines_of(&chars_of("")).is_empty());
    assert_eq!(lines_of(&chars_of("x\n")).len(), 1);
}

#[test]
fn joining() {
    let parts = vec!["a".to_string(), "b".to_string(), "c".to_string()];
    assert_eq!(join_strings(&parts, ", "), "a, b, c");
    assert_eq!(join_strings(&Vec::new(), ", "), "");
}
