use sysmon::text::{
    append_decimal, append_digit, append_fitted, append_left, append_one_place, append_repeated,
    append_right, append_two_places, decimal_string, extend_lines, join_lines, push_line,
};

#[test]
fn decimal_string_of_small_and_large_numbers() {
    assert_eq!(decimal_string(0), "0");
    assert_eq!(decimal_string(9), "9");
    assert_eq!(decimal_string(10), "10");
    assert_eq!(decimal_string(1023), "1023");
    assert_eq!(decimal_string(u64::MAX as u128), "18446744073709551615");
    assert_eq!(decimal_string(u128::MAX), "340282366920938463463374607431768211455");
}

#[test]
fn decimal_string_agrees_with_display() {
    for n in 0..3000u128 {
        assert_eq!(decimal_string(n), format!("{}", n));
    }
}

#[test]
fn append_decimal_and_digit_keep_what_stands_before() {
    let mut s = String::from("n=");
    append_decimal(&mut s, 405);
    append_digit(&mut s, 7);
    assert_eq!(s, "n=4057");
}

#[test]
fn one_and_two_places_after_the_point() {
    let mut s = String::new();
    append_one_place(&mut s, 250);
    assert_eq!(s, "25.0");
    let mut s = String::new();
    append_one_place(&mut s, 7);
    assert_eq!(s, "0.7");
    let mut s = String::new();
    append_two_places(&mut s, 150);
    assert_eq!(s, "1.50");
    let mut s = String::new();
    append_two_places(&mut s, 102_400);
    assert_eq!(s, "1024.00");
    let mut s = String::new();
    append_two_places(&mut s, 5);
    assert_eq!(s, "0.05");
}

#[test]
fn repeated_characters() {
    let mut s = String::from("[");
    append_repeated(&mut s, "#", 3);
    append_repeated(&mut s, ".", 0);
    append_repeated(&mut s, "-", 2);
    assert_eq!(s, "[###--");
}

#[test]
fn text_moves_to_the_right_edge() {
    let mut s = String::new();
    append_right(&mut s, "7", 2);
    assert_eq!(s, " 7");
    let mut s = String::new();
    append_right(&mut s, "12", 2);
    assert_eq!(s, "12");
    let mut s = String::new();
    append_right(&mut s, "123", 2);
    assert_eq!(s, "123");
    let mut s = String::new();
    append_right(&mut s, "\u{e9}t\u{e9}", 5);
    assert_eq!(s, format!("{:>5}", "\u{e9}t\u{e9}"));
}

#[test]
fn text_stays_at_the_left_edge() {
    let mut s = String::new();
    append_left(&mut s, "eth0", 12);
    assert_eq!(s, "eth0        ");
    let mut s = String::new();
    append_left(&mut s, "a-very-long-interface-name", 12);
    assert_eq!(s, "a-very-long-interface-name");
    let mut s = String::new();
    append_left(&mut s, "", 3);
    assert_eq!(s, "   ");
}

#[test]
fn text_fits_a_column_of_fixed_width() {
    let mut s = String::new();
    append_fitted(&mut s, "/", 15);
    assert_eq!(s, "/              ");
    let mut s = String::new();
    append_fitted(&mut s, "/exactly/15/chr", 15);
    assert_eq!(s, "/exactly/15/chr");
    let mut s = String::new();
    append_fitted(&mut s, "/mnt/a/rather/long/mount/point", 15);
    assert_eq!(s, "/mnt/a/rather/l");
    let mut s = String::new();
    append_fitted(&mut s, "/donn\u{e9}es/tr\u{e8}s/longues", 15);
    assert_eq!(s, "/donn\u{e9}es/tr\u{e8}s/l");
}

#[test]
fn lines_are_joined_with_line_feeds() {
    let mut lines: Vec<String> = Vec::new();
    assert_eq!(join_lines(&lines), "");
    push_line(&mut lines, String::from("a"));
    push_line(&mut lines, String::new());
    extend_lines(&mut lines, vec![String::from("b"), String::from("c")]);
    assert_eq!(lines, vec!["a", "", "b", "c"]);
    assert_eq!(join_lines(&lines), "a\n\nb\nc\n");
}
