use archscan::text::{chars_of, decimal_string, parse_u16_in, trim_bounds};

#[test]
fn decimal_rendering() {
    assert_eq!(decimal_string(0), "0");
    assert_eq!(decimal_string(7), "7");
    assert_eq!(decimal_string(80), "80");
    assert_eq!(decimal_string(65535), "65535");
}

#[test]
fn parse_u16_on_a_range() {
    let cs = chars_of("x+123y");
    assert_eq!(parse_u16_in(&cs, 1, 5), Some(123));
    assert_eq!(parse_u16_in(&cs, 0, 5), None);
    assert_eq!(parse_u16_in(&cs, 1, 2), None);
}

#[test]
fn trim_bounds_of_spaces() {
    let cs = chars_of("  ab c \n");
    assert_eq!(trim_bounds(&cs, 0, cs.len()), (2, 6));
    assert_eq!(trim_bounds(&cs, 0, 2), (2, 2));
}
