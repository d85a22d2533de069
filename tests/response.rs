use videocore_gencmd::{
    parse_field, parse_field_simple, DecimalStr, IntRadix, ParseFieldError, ParseIntError,
    ParseStrError,
};

fn offset(source: &str, rest: &str) -> usize {
    rest.as_ptr() as usize - source.as_ptr() as usize
}

#[test]
fn parses_i32_field() {
    let source = " value=-1234";

    let (new_source, value) = parse_field_simple::<i32>(source, "value").unwrap();

    assert_eq!(value, -1234);
    assert_eq!(source.as_ptr() as usize + source.len(), new_source.as_ptr() as usize);
}

#[test]
fn parses_u32_field_with_radix() {
    let source = " value=10  ";

    let (new_source, value) = parse_field_simple::<IntRadix<u32, 2>>(source, "value").unwrap();

    assert_eq!(value.0, 2);
    assert_eq!(
        source.as_ptr() as usize + " value=10".len(),
        new_source.as_ptr() as usize
    );
}

#[test]
fn parses_f32_field() {
    let source = "value(12)=12.3";

    let (new_source, value) = parse_field_simple::<DecimalStr>(source, "value(12)").unwrap();

    assert_eq!(value.0.parse::<f32>().unwrap(), 12.3);
    assert_eq!(source.as_ptr() as usize + source.len(), new_source.as_ptr() as usize);
}

#[test]
fn parses_prefixed_field() {
    let source = "value=0x12 value2=1";

    let (new_source, value) = parse_field::<u64>(source, "value", Some("0x"), None).unwrap();

    assert_eq!(value, 12);
    assert_eq!(
        source.as_ptr() as usize + "value=0x12".len(),
        new_source.as_ptr() as usize
    );
}

#[test]
fn parses_suffixed_field() {
    let source = "value(12)=12.3'C value2=1";

    let (new_source, value) =
        parse_field::<DecimalStr>(source, "value(12)", None, Some("'C")).unwrap();

    assert_eq!(value.0.parse::<f32>().unwrap(), 12.3);
    assert_eq!(
        source.as_ptr() as usize + "value(12)=12.3'C".len(),
        new_source.as_ptr() as usize
    );
}

#[test]
fn parses_prefixed_and_suffixed_field() {
    let source = "value(12)=0x12.3'C value2=1";

    let (new_source, value) =
        parse_field::<DecimalStr>(source, "value(12)", Some("0x"), Some("'C")).unwrap();

    assert_eq!(value.0.parse::<f32>().unwrap(), 12.3);
    assert_eq!(
        source.as_ptr() as usize + "value(12)=0x12.3'C".len(),
        new_source.as_ptr() as usize
    );
}

#[test]
fn parses_str_field() {
    let source = "value=\"one, two, three, four\"";

    let (new_source, value) = parse_field_simple::<&str>(source, "value").unwrap();

    assert_eq!(value, "one, two, three, four");
    assert_eq!(source.as_ptr() as usize + source.len(), new_source.as_ptr() as usize);
}

#[test]
fn parses_field_with_correct_end() {
    let source = "value=\"one, two, three, four\" value2=1";

    let (new_source, value) = parse_field_simple::<&str>(source, "value").unwrap();

    assert_eq!(value, "one, two, three, four");
    assert_eq!(
        source.as_ptr() as usize + "value=\"one, two, three, four\"".len(),
        new_source.as_ptr() as usize
    );
}

#[test]
fn signed_field_leaves_cursor_at_end() {
    let source = " value=-1234";
    let (rest, value) = parse_field_simple::<i32>(source, "value").unwrap();
    assert_eq!(value, -1234);
    assert_eq!(rest, "");
    assert_eq!(offset(source, rest), source.len());
}

#[test]
fn radix_two_reads_binary_digits() {
    let (rest, value) = parse_field_simple::<IntRadix<u32, 2>>("value=10", "value").unwrap();
    assert_eq!(value.0, 2);
    assert_eq!(rest, "");
}

#[test]
fn hex_field_reads_letters() {
    let (rest, value) =
        parse_field::<IntRadix<u32, 16>>("throttled=0x5000f tail", "throttled", Some("0x"), None)
            .unwrap();
    assert_eq!(value.0, 0x5000f);
    assert_eq!(rest, " tail");
}

#[test]
fn decimal_field_with_prefix_and_suffix_stops_before_next_field() {
    let source = "value(12)=0x12.3'C value2=1";
    let (rest, value) =
        parse_field::<DecimalStr>(source, "value(12)", Some("0x"), Some("'C")).unwrap();
    assert_eq!(value.0, "12.3");
    assert_eq!(rest, " value2=1");
}

#[test]
fn fields_are_read_one_after_another() {
    let source = "error=2 error_msg=\"invalid arguments\"";
    let (rest, code) = parse_field_simple::<i32>(source, "error").unwrap();
    let (rest, message) = parse_field_simple::<&str>(rest, "error_msg").unwrap();
    assert_eq!(code, 2);
    assert_eq!(message, "invalid arguments");
    assert_eq!(rest, "");
}

#[test]
fn written_integer_field_reads_back() {
    for v in [0i64, 7, -7, 1234567890123, i64::MIN, i64::MAX] {
        let text = format!("  key(1)=0x{} next=1", v);
        let (rest, read) = parse_field::<i64>(&text, "key(1)", Some("0x"), None).unwrap();
        assert_eq!(read, v);
        assert_eq!(rest, " next=1");
    }
}

#[test]
fn written_string_field_reads_back() {
    let text = "\tkey=\"a, b = c\" other";
    let (rest, read) = parse_field_simple::<&str>(text, "key").unwrap();
    assert_eq!(read, "a, b = c");
    assert_eq!(rest, " other");
}

#[test]
fn missing_key_is_invalid_format() {
    let r = parse_field_simple::<i32>("other=1", "value");
    assert!(matches!(r, Err(ParseFieldError::InvalidFormatError)));
}

#[test]
fn missing_equals_is_invalid_format() {
    let r = parse_field_simple::<i32>("value 1", "value");
    assert!(matches!(r, Err(ParseFieldError::InvalidFormatError)));
}

#[test]
fn missing_prefix_is_invalid_format() {
    let r = parse_field::<u32>("value=12", "value", Some("0x"), None);
    assert!(matches!(r, Err(ParseFieldError::InvalidFormatError)));
}

#[test]
fn missing_suffix_is_invalid_format() {
    let r = parse_field::<DecimalStr>("temp=45.6C", "temp", None, Some("'C"));
    assert!(matches!(r, Err(ParseFieldError::InvalidFormatError)));
}

#[test]
fn empty_integer_is_an_error() {
    let r = parse_field_simple::<i32>("value=x", "value");
    assert!(matches!(r, Err(ParseFieldError::ConversionError(ParseIntError::Empty))));
}

#[test]
fn sign_after_digits_ends_the_integer() {
    let (rest, v) = parse_field_simple::<i32>("value=1-2", "value").unwrap();
    assert_eq!(v, 1);
    assert_eq!(rest, "-2");
    let (rest, v) = parse_field::<IntRadix<u32, 10>>("value=12-3", "value", None, None).unwrap();
    assert_eq!(v.0, 12);
    assert_eq!(rest, "-3");
}

#[test]
fn lone_or_negative_sign_is_an_invalid_digit() {
    let r = parse_field_simple::<i32>("value=-", "value");
    assert!(matches!(r, Err(ParseFieldError::ConversionError(ParseIntError::InvalidDigit))));
    let r = parse_field_simple::<i32>("value=+-1", "value");
    assert!(matches!(r, Err(ParseFieldError::ConversionError(ParseIntError::InvalidDigit))));
    let r = parse_field_simple::<u8>("value=-1", "value");
    assert!(matches!(r, Err(ParseFieldError::ConversionError(ParseIntError::InvalidDigit))));
}

#[test]
fn integer_overflow_is_an_error() {
    let r = parse_field_simple::<u8>("value=256", "value");
    assert!(matches!(r, Err(ParseFieldError::ConversionError(ParseIntError::PosOverflow))));
    let r = parse_field_simple::<i8>("value=-129", "value");
    assert!(matches!(r, Err(ParseFieldError::ConversionError(ParseIntError::NegOverflow))));
    let r = parse_field_simple::<u128>("value=999999999999999999999999999999999999999999", "value");
    assert!(matches!(r, Err(ParseFieldError::ConversionError(ParseIntError::PosOverflow))));
}

#[test]
fn integer_bounds_are_read() {
    let (_, v) = parse_field_simple::<i128>(
        "value=-170141183460469231731687303715884105728",
        "value",
    )
    .unwrap();
    assert_eq!(v, i128::MIN);
    let (_, v) = parse_field_simple::<u8>("value=+255", "value").unwrap();
    assert_eq!(v, 255);
    let (_, v) = parse_field_simple::<i16>("value=-32768", "value").unwrap();
    assert_eq!(v, i16::MIN);
}

#[test]
fn unquoted_string_is_an_error() {
    let r = parse_field_simple::<&str>("value=abc", "value");
    assert!(matches!(r, Err(ParseFieldError::ConversionError(ParseStrError))));
    let r = parse_field_simple::<&str>("value=\"abc", "value");
    assert!(matches!(r, Err(ParseFieldError::ConversionError(ParseStrError))));
}

#[test]
fn decimal_stops_at_a_second_point_or_an_exponent() {
    let (rest, v) = parse_field_simple::<DecimalStr>("value=1.2.3", "value").unwrap();
    assert_eq!(v.0, "1.2");
    assert_eq!(rest, ".3");
    let (rest, v) = parse_field_simple::<DecimalStr>("value=4.5e3", "value").unwrap();
    assert_eq!(v.0.parse::<f32>().unwrap(), 4.5);
    assert_eq!(rest, "e3");
    let (rest, v) = parse_field_simple::<DecimalStr>("value=-7-1", "value").unwrap();
    assert_eq!(v.0, "-7");
    assert_eq!(rest, "-1");
}

#[test]
fn decimal_without_digits_is_an_error() {
    let r = parse_field_simple::<DecimalStr>("value=.", "value");
    assert!(matches!(r, Err(ParseFieldError::ConversionError(_))));
    let r = parse_field_simple::<DecimalStr>("value=-.x", "value");
    assert!(matches!(r, Err(ParseFieldError::ConversionError(_))));
}

#[test]
fn decimal_forms_that_parse_as_floats() {
    for text in ["value=-1.5", "value=+3", "value=7.", "value=.25"] {
        let (_, v) = parse_field_simple::<DecimalStr>(text, "value").unwrap();
        assert!(v.0.parse::<f32>().is_ok());
    }
}

#[test]
fn written_decimal_field_reads_back() {
    let text = " temp=0x-12.50'C\tnext=1";
    let (rest, read) = parse_field::<DecimalStr>(text, "temp", Some("0x"), Some("'C")).unwrap();
    assert_eq!(read.0, "-12.50");
    assert_eq!(read.0.parse::<f32>().unwrap(), -12.5);
    assert_eq!(rest, "\tnext=1");
}

#[test]
fn integer_stops_at_a_following_sign() {
    let (rest, v) = parse_field_simple::<u32>("value=12+3", "value").unwrap();
    assert_eq!(v, 12);
    assert_eq!(rest, "+3");
}
