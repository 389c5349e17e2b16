use tvac_log::errors::ParseError;
use tvac_log::extract::{
    crop_first_n_letters, extract_measurement_from_nth_word, extract_nth_word,
    extract_nth_word_as_number, parse_int_in_range, remove_result_prefix, split_words, str_eq,
};

#[test]
fn split_words_basic() {
    let ws = split_words("LMS Emitter: 78");
    assert_eq!(ws, vec!["LMS".to_string(), "Emitter:".to_string(), "78".to_string()]);
}

#[test]
fn split_words_collapses_whitespace_runs() {
    let ws = split_words("  a \t b\u{c}\r\n  c  ");
    assert_eq!(ws, vec!["a".to_string(), "b".to_string(), "c".to_string()]);
}

#[test]
fn split_words_empty_line_has_no_words() {
    assert!(split_words("").is_empty());
    assert!(split_words(" \t ").is_empty());
}

#[test]
fn nth_word_found() {
    assert_eq!(extract_nth_word("LMS Emitter: 78", 2), Ok("78".to_string()));
    assert_eq!(extract_nth_word("MSP: 24", 0), Ok("MSP:".to_string()));
}

#[test]
fn nth_word_missing() {
    assert_eq!(extract_nth_word("a b", 5), Err(ParseError::FieldMissing));
    assert_eq!(extract_nth_word("", 0), Err(ParseError::FieldMissing));
}

#[test]
fn crop_drops_fixed_prefix() {
    assert_eq!(remove_result_prefix("[ OK ] Measured output current: 150mA"),
        "Measured output current: 150mA");
    assert_eq!(remove_result_prefix("[FAIL] x"), "x");
    assert_eq!(crop_first_n_letters("abcdef", 2), "cdef");
}

#[test]
fn crop_of_short_line_is_empty() {
    assert_eq!(crop_first_n_letters("abc", 7), "");
    assert_eq!(crop_first_n_letters("abc", 3), "");
    assert_eq!(remove_result_prefix("[ OK ]"), "");
}

#[test]
fn parse_decimal_values() {
    assert_eq!(parse_int_in_range("120", 0, 4294967295), Some(120));
    assert_eq!(parse_int_in_range("-40", -32768, 32767), Some(-40));
    assert_eq!(parse_int_in_range("0012", 0, 100), Some(12));
    assert_eq!(parse_int_in_range("0", -5, 5), Some(0));
}

#[test]
fn parse_rejects_non_numerals() {
    assert_eq!(parse_int_in_range("", 0, 100), None);
    assert_eq!(parse_int_in_range("-", 0, 100), None);
    assert_eq!(parse_int_in_range("12a", 0, 100), None);
    assert_eq!(parse_int_in_range("a12", 0, 100), None);
    assert_eq!(parse_int_in_range("1.5", 0, 100), None);
    // A numeral is an optional minus sign and digits; an explicit plus sign
    // is not part of the format.
    assert_eq!(parse_int_in_range("+5", 0, 100), None);
}

#[test]
fn parse_rejects_out_of_range() {
    assert_eq!(parse_int_in_range("40000", -32768, 32767), None);
    assert_eq!(parse_int_in_range("-40000", -32768, 32767), None);
    assert_eq!(parse_int_in_range("99999999999999999999999", 0, 1_000_000_000_000), None);
}

#[test]
fn word_as_number_extracts_payload() {
    assert_eq!(extract_nth_word_as_number("Total time: 120", 2, 0, 4294967295), Ok(120));
    assert_eq!(extract_nth_word_as_number("MSP: -40", 1, -32768, 32767), Ok(-40));
}

#[test]
fn word_as_number_errors() {
    assert_eq!(
        extract_nth_word_as_number("Total time:", 2, 0, 4294967295),
        Err(ParseError::FieldMissing)
    );
    assert_eq!(
        extract_nth_word_as_number("Total time: abc", 2, 0, 4294967295),
        Err(ParseError::NumericParseFailure)
    );
    assert_eq!(
        extract_nth_word_as_number("Temp x: 40000", 2, -32768, 32767),
        Err(ParseError::NumericParseFailure)
    );
}

#[test]
fn measurement_from_pinpuller_line() {
    // The pinpuller-current example: the annotated line yields 150.
    assert_eq!(
        extract_measurement_from_nth_word(
            "[ OK ] Measured output current: 150mA",
            3,
            "mA",
            0,
            65535
        ),
        Ok(150)
    );
}

#[test]
fn measurement_wrong_unit_is_unit_mismatch() {
    // Changing the suffix to a bare ampere must be caught as a unit error.
    assert_eq!(
        extract_measurement_from_nth_word(
            "[ OK ] Measured output current: 150A",
            3,
            "mA",
            0,
            65535
        ),
        Err(ParseError::UnitMismatch)
    );
}

#[test]
fn measurement_errors() {
    assert_eq!(
        extract_measurement_from_nth_word("[ OK ] too short", 3, "mA", 0, 65535),
        Err(ParseError::FieldMissing)
    );
    assert_eq!(
        extract_measurement_from_nth_word(
            "[FAIL] Measured output current: xyzmA",
            3,
            "mA",
            0,
            65535
        ),
        Err(ParseError::NumericParseFailure)
    );
    // The status prefix is cropped by width, not matched: any 7 characters go.
    assert_eq!(
        extract_measurement_from_nth_word("[????] Measured output current: 9mA", 3, "mA", 0, 65535),
        Ok(9)
    );
}

#[test]
fn str_eq_is_exact() {
    assert!(str_eq("ENTERING EMISSION PHASE", "ENTERING EMISSION PHASE"));
    assert!(!str_eq("ENTERING EMISSION PHASE", "ENTERING EMISSION PHASE "));
    assert!(!str_eq("abc", "abd"));
    assert!(str_eq("", ""));
}
