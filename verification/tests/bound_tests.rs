use compactor::boundspec::BoundParseError;
use compactor::dims::Bound;

#[test]
fn parses_two_numeric_fields() {
    let b = Bound::from_str("800,600").unwrap();
    assert_eq!(b.0, Some(800));
    assert_eq!(b.1, Some(600));
}

#[test]
fn empty_height_field_means_no_limit() {
    let b = Bound::from_str("800,").unwrap();
    assert_eq!(b.0, Some(800));
    assert_eq!(b.1, None);
}

#[test]
fn non_numeric_width_field_means_no_limit() {
    let b = Bound::from_str("abc,600").unwrap();
    assert_eq!(b.0, None);
    assert_eq!(b.1, Some(600));
}

#[test]
fn missing_separator_is_invalid_format() {
    let r = Bound::from_str("800");
    assert_eq!(r, Err(BoundParseError::InvalidFormat));
}

#[test]
fn too_many_fields_is_invalid_format() {
    assert_eq!(Bound::from_str("800,600,400"), Err(BoundParseError::InvalidFormat));
    assert_eq!(Bound::from_str(",,"), Err(BoundParseError::InvalidFormat));
}

#[test]
fn empty_string_is_invalid_format() {
    assert_eq!(Bound::from_str(""), Err(BoundParseError::InvalidFormat));
}

#[test]
fn lone_comma_means_no_limits() {
    let b = Bound::from_str(",").unwrap();
    assert_eq!(b.0, None);
    assert_eq!(b.1, None);
}

#[test]
fn zero_field_means_no_limit() {
    let b = Bound::from_str("0,600").unwrap();
    assert_eq!(b.0, None);
    assert_eq!(b.1, Some(600));
}

#[test]
fn out_of_range_field_means_no_limit() {
    let b = Bound::from_str("99999999999,5").unwrap();
    assert_eq!(b.0, None);
    assert_eq!(b.1, Some(5));
}

#[test]
fn leading_zeros_are_plain_decimal() {
    let b = Bound::from_str("0800,00000000000600").unwrap();
    assert_eq!(b.0, Some(800));
    assert_eq!(b.1, Some(600));
}
