//! Tests of the per-type value codecs.

use argser::ParseError;
use argser::traits::ParseFromArgs;

fn s(x: &str) -> String {
    x.to_owned()
}

#[test]
fn string_parse() {
    assert_eq!(
        Ok("test_str".to_owned()),
        ParseFromArgs::parse(vec!["test_str".to_owned(), "other".to_owned()])
    );
    assert_eq!(
        Result::<String, ParseError>::Err(ParseError::MissingValue),
        ParseFromArgs::parse(Vec::new())
    );
}

#[test]
fn u64_parse() {
    assert_eq!(
        Ok(10u64),
        ParseFromArgs::parse(vec!["10".to_owned(), "other".to_owned()])
    );
    assert_eq!(
        Result::<u64, ParseError>::Err(ParseError::InvalidValue),
        ParseFromArgs::parse(vec!["other".to_owned()])
    );
    assert_eq!(
        Result::<u64, ParseError>::Err(ParseError::MissingValue),
        ParseFromArgs::parse(Vec::new())
    );
}

#[test]
fn u32_parse() {
    assert_eq!(
        Ok(10u32),
        ParseFromArgs::parse(vec!["10".to_owned(), "other".to_owned()])
    );
    assert_eq!(
        Result::<u32, ParseError>::Err(ParseError::InvalidValue),
        ParseFromArgs::parse(vec!["other".to_owned()])
    );
    assert_eq!(
        Result::<u32, ParseError>::Err(ParseError::MissingValue),
        ParseFromArgs::parse(Vec::new())
    );
}

#[test]
fn u16_parse() {
    assert_eq!(
        Ok(10u16),
        ParseFromArgs::parse(vec!["10".to_owned(), "other".to_owned()])
    );
    assert_eq!(
        Result::<u16, ParseError>::Err(ParseError::InvalidValue),
        ParseFromArgs::parse(vec!["other".to_owned()])
    );
    assert_eq!(
        Result::<u16, ParseError>::Err(ParseError::MissingValue),
        ParseFromArgs::parse(Vec::new())
    );
}

#[test]
fn u8_parse() {
    assert_eq!(
        Ok(10u8),
        ParseFromArgs::parse(vec!["10".to_owned(), "other".to_owned()])
    );
    assert_eq!(
        Result::<u8, ParseError>::Err(ParseError::InvalidValue),
        ParseFromArgs::parse(vec!["other".to_owned()])
    );
    assert_eq!(
        Result::<u8, ParseError>::Err(ParseError::MissingValue),
        ParseFromArgs::parse(Vec::new())
    );
}

#[test]
fn bool_parse() {
    assert_eq!(
        Ok(true),
        ParseFromArgs::parse(vec!["true".to_owned(), "other".to_owned()])
    );
    assert_eq!(
        Ok(false),
        ParseFromArgs::parse(vec!["false".to_owned(), "other".to_owned()])
    );
    assert_eq!(
        Result::<bool, ParseError>::Err(ParseError::InvalidValue),
        ParseFromArgs::parse(vec!["other".to_owned()])
    );
    assert_eq!(
        Result::<bool, ParseError>::Err(ParseError::MissingValue),
        ParseFromArgs::parse(Vec::new())
    );
}

#[test]
fn scalar_codecs_ignore_later_values() {
    // Every scalar codec reads only the first raw value: extra values
    // change nothing.
    let one: Result<u16, ParseError> = ParseFromArgs::parse(vec![s("7")]);
    let two: Result<u16, ParseError> = ParseFromArgs::parse(vec![s("7"), s("junk"), s("8")]);
    assert_eq!(one, two);
    let one: Result<String, ParseError> = ParseFromArgs::parse(vec![s("a")]);
    let two: Result<String, ParseError> = ParseFromArgs::parse(vec![s("a"), s("b")]);
    assert_eq!(one, two);
    let one: Result<bool, ParseError> = ParseFromArgs::parse(vec![s("true")]);
    let two: Result<bool, ParseError> = ParseFromArgs::parse(vec![s("true"), s("false")]);
    assert_eq!(one, two);
}

#[test]
fn parse_with_default_never_fails() {
    // Malformed, out-of-range and empty inputs all produce a value.
    assert_eq!(0u16, ParseFromArgs::parse_with_default(vec![s("junk")]));
    assert_eq!(0u16, ParseFromArgs::parse_with_default(vec![s("70000")]));
    assert_eq!(0u16, ParseFromArgs::parse_with_default(Vec::new()));
    assert_eq!(9u16, ParseFromArgs::parse_with_default(vec![s("9")]));
    assert_eq!(String::new(), <String as ParseFromArgs>::parse_with_default(Vec::new()));
    assert_eq!(false, <bool as ParseFromArgs>::parse_with_default(vec![s("junk")]));
}

#[test]
fn parse_with_default_fn_never_fails() {
    assert_eq!(42u16, ParseFromArgs::parse_with_default_fn(vec![s("junk")], || 42u16));
    assert_eq!(42u16, ParseFromArgs::parse_with_default_fn(Vec::new(), || 42u16));
    assert_eq!(9u16, ParseFromArgs::parse_with_default_fn(vec![s("9")], || 42u16));
}

#[test]
fn option_codec_is_not_absence() {
    // The optional wrapper decodes the inner type; an empty input is still
    // a missing value, not "absent": absence only comes from default
    // policies one level up.
    assert_eq!(
        Ok(Some(5u16)),
        <Option<u16> as ParseFromArgs>::parse(vec![s("5")])
    );
    assert_eq!(
        Result::<Option<u16>, ParseError>::Err(ParseError::MissingValue),
        <Option<u16> as ParseFromArgs>::parse(Vec::new())
    );
    assert_eq!(
        Result::<Option<u16>, ParseError>::Err(ParseError::InvalidValue),
        <Option<u16> as ParseFromArgs>::parse(vec![s("junk")])
    );
}

#[test]
fn vec_codec_drops_failures() {
    // Each raw value decodes independently; failures are discarded, and an
    // all-failure input still succeeds with an empty result.
    assert_eq!(
        Ok(vec![1u16, 3u16]),
        <Vec<u16> as ParseFromArgs>::parse(vec![s("1"), s("bad"), s("3")])
    );
    assert_eq!(
        Ok(Vec::<u16>::new()),
        <Vec<u16> as ParseFromArgs>::parse(vec![s("bad")])
    );
    assert_eq!(
        Result::<Vec<u16>, ParseError>::Err(ParseError::MissingValue),
        <Vec<u16> as ParseFromArgs>::parse(Vec::new())
    );
}

#[test]
fn uint_codec_edges() {
    // A leading '+' is accepted, as std accepts it; overflow and empty
    // strings are invalid.
    assert_eq!(Ok(123u16), ParseFromArgs::parse(vec![s("+123")]));
    assert_eq!(
        Result::<u8, ParseError>::Err(ParseError::InvalidValue),
        ParseFromArgs::parse(vec![s("256")])
    );
    assert_eq!(Ok(255u8), ParseFromArgs::parse(vec![s("255")]));
    assert_eq!(
        Result::<u64, ParseError>::Err(ParseError::InvalidValue),
        ParseFromArgs::parse(vec![s("18446744073709551616")])
    );
    assert_eq!(
        Ok(18446744073709551615u64),
        ParseFromArgs::parse(vec![s("18446744073709551615")])
    );
    assert_eq!(
        Result::<u16, ParseError>::Err(ParseError::InvalidValue),
        ParseFromArgs::parse(vec![s("")])
    );
    assert_eq!(
        Result::<u16, ParseError>::Err(ParseError::InvalidValue),
        ParseFromArgs::parse(vec![s(" 1")])
    );
}
