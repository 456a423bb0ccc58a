use rudi::text::{decimal, join_strings};

#[test]
fn decimal_numerals() {
    assert_eq!(decimal(0), "0");
    assert_eq!(decimal(7), "7");
    assert_eq!(decimal(10), "10");
    assert_eq!(decimal(2024), "2024");
    assert_eq!(decimal(usize::MAX), usize::MAX.to_string());
}

#[test]
fn joining_strings() {
    assert_eq!(join_strings(&vec![], ", "), "");
    assert_eq!(join_strings(&vec!["a".to_string()], ", "), "a");
    assert_eq!(
        join_strings(&vec!["new".to_string(), "build".to_string()], ", "),
        "new, build"
    );
}
