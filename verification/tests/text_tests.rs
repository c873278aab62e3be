use mynote::text::{chars_of, decimal_chars, push_decimal, push_signed_decimal, string_of, text_eq};

#[test]
fn decimal_notation() {
    assert_eq!(decimal_chars(0).into_iter().collect::<String>(), "0");
    assert_eq!(decimal_chars(1009).into_iter().collect::<String>(), "1009");
    let mut s = String::from("n=");
    push_decimal(&mut s, 42);
    assert_eq!(s, "n=42");
    let mut t = String::new();
    push_signed_decimal(&mut t, -7);
    push_signed_decimal(&mut t, i64::MIN);
    assert_eq!(t, format!("-7{}", i64::MIN));
}

#[test]
fn characters_round_trip() {
    let v = chars_of("日记ab");
    assert_eq!(v, vec!['日', '记', 'a', 'b']);
    assert_eq!(string_of(&v), "日记ab");
    assert!(text_eq("日记", "日记"));
    assert!(!text_eq("日记", "日"));
}
