use voltec_website::format::format_number;

#[test]
fn formats_live_counter_start() {
    assert_eq!(format_number(12847), "12,847");
}

#[test]
fn three_digits_have_no_separator() {
    assert_eq!(format_number(999), "999");
}

#[test]
fn million_has_two_separators() {
    assert_eq!(format_number(1000000), "1,000,000");
}

#[test]
fn small_values() {
    assert_eq!(format_number(0), "0");
    assert_eq!(format_number(7), "7");
    assert_eq!(format_number(42), "42");
    assert_eq!(format_number(100), "100");
}

#[test]
fn group_boundaries_keep_zero_padding() {
    assert_eq!(format_number(1000), "1,000");
    assert_eq!(format_number(1005), "1,005");
    assert_eq!(format_number(10050), "10,050");
    assert_eq!(format_number(123456), "123,456");
}

#[test]
fn extreme_values() {
    assert_eq!(format_number(i32::MAX), "2,147,483,647");
    assert_eq!(format_number(i32::MIN), "-2,147,483,648");
}

#[test]
fn negative_values_group_the_digits_only() {
    assert_eq!(format_number(-1), "-1");
    assert_eq!(format_number(-123), "-123");
    assert_eq!(format_number(-1234), "-1,234");
    assert_eq!(format_number(-123456), "-123,456");
}
