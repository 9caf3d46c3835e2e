use blobs::range::{RangeParseError, split_range};

#[test]
fn split_range_takes_the_first_delimiter() {
    assert_eq!(
        split_range("0.5..1.0"),
        Ok(("0.5".to_string(), "1.0".to_string()))
    );
    assert_eq!(
        split_range("1..2..3"),
        Ok(("1".to_string(), "2..3".to_string()))
    );
}

#[test]
fn split_range_keeps_empty_sides() {
    assert_eq!(split_range("..7"), Ok(("".to_string(), "7".to_string())));
    assert_eq!(split_range("32.."), Ok(("32".to_string(), "".to_string())));
    assert_eq!(split_range(".."), Ok(("".to_string(), "".to_string())));
}

#[test]
fn split_range_without_delimiter_is_rejected() {
    assert_eq!(split_range("1.0"), Err(RangeParseError::MissingDelimiter));
    assert_eq!(split_range(""), Err(RangeParseError::MissingDelimiter));
    assert_eq!(split_range("1.5"), Err(RangeParseError::MissingDelimiter));
}

#[test]
fn error_messages_are_exact() {
    assert_eq!(
        RangeParseError::MissingLeft.to_string(),
        "missing left-hand side of range"
    );
    assert_eq!(
        RangeParseError::MissingRight.to_string(),
        "missing right-hand side of range"
    );
    assert_eq!(
        RangeParseError::MissingDelimiter.to_string(),
        "missing '..' delimiter"
    );
    assert_eq!(
        RangeParseError::InvalidFloat("cannot parse".to_string()).to_string(),
        "invalid float: cannot parse"
    );
}
