use warehousebot::text::{
    chars_of, push_decimal, push_int, range_matches, read_i32, same_text,
};

#[test]
fn test_push_decimal() {
    let mut out = String::from("n=");
    push_decimal(&mut out, 0);
    assert_eq!(out, "n=0");
    push_decimal(&mut out, 7);
    push_decimal(&mut out, 10);
    push_decimal(&mut out, 1234567890);
    assert_eq!(out, "n=07101234567890");
    let mut out = String::new();
    push_decimal(&mut out, u64::MAX);
    assert_eq!(out, "18446744073709551615");
}

#[test]
fn test_push_int() {
    for v in [0i64, 1, -1, 9, 10, -10, 2147483647, -2147483648, i64::MAX, i64::MIN] {
        let mut out = String::new();
        push_int(&mut out, v);
        assert_eq!(out, v.to_string());
    }
}

#[test]
fn test_read_i32() {
    let read = |text: &str| {
        let chars = chars_of(text);
        read_i32(&chars, 0, chars.len())
    };
    for v in [0i32, 5, -5, 42, i32::MAX, i32::MIN, -1000000] {
        assert_eq!(read(&v.to_string()), Some(v));
    }
    for text in ["", "+", "-", "1a", "a1", " 1", "1 ", "--1", "+-1", "2147483648", "-2147483649", "99999999999999999999999", "1_000", "١"] {
        assert_eq!(read(text), text.parse::<i32>().ok());
        assert_eq!(read(text), None);
    }
    for text in ["+7", "-0", "+0", "000", "0000000000000000000000012", "-00002147483648"] {
        assert_eq!(read(text), text.parse::<i32>().ok());
        assert!(read(text).is_some());
    }
}

#[test]
fn test_read_i32_in_the_middle() {
    let chars = chars_of("ab-12cd");
    assert_eq!(read_i32(&chars, 2, 5), Some(-12));
    assert_eq!(read_i32(&chars, 3, 5), Some(12));
    assert_eq!(read_i32(&chars, 2, 6), None);
    assert_eq!(read_i32(&chars, 4, 4), None);
}

#[test]
fn test_chars_of() {
    assert_eq!(chars_of(""), Vec::<char>::new());
    assert_eq!(chars_of("Kürbis"), vec!['K', 'ü', 'r', 'b', 'i', 's']);
}

#[test]
fn test_same_text() {
    assert!(same_text("", ""));
    assert!(same_text("north", "north"));
    assert!(!same_text("north", "nort"));
    assert!(!same_text("nort", "north"));
    assert!(!same_text("north", "south"));
    assert!(same_text("Kürbis", "Kürbis"));
    assert!(!same_text("Kürbis", "Kurbis"));
}

#[test]
fn test_range_matches() {
    let chars = chars_of("  north ");
    assert!(range_matches(&chars, 2, 7, "north"));
    assert!(!range_matches(&chars, 2, 6, "north"));
    assert!(!range_matches(&chars, 2, 8, "north"));
    assert!(!range_matches(&chars, 1, 7, "north"));
    assert!(range_matches(&chars, 3, 3, ""));
    assert!(!range_matches(&chars, 3, 3, "n"));
}
