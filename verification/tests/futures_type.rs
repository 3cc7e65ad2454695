use lfest::errors::Error;
use lfest::futures_type::FuturesTypes;

#[test]
fn futures_type_from_str_in_any_case() {
    assert_eq!(FuturesTypes::from_str("linear"), Ok(FuturesTypes::Linear));
    assert_eq!(FuturesTypes::from_str("LINEAR"), Ok(FuturesTypes::Linear));
    assert_eq!(FuturesTypes::from_str("Inverse"), Ok(FuturesTypes::Inverse));
    assert_eq!(FuturesTypes::from_str("inverse "), Err(Error::ParseError));
    assert_eq!(FuturesTypes::from_str("spot"), Err(Error::ParseError));
}

#[test]
fn futures_type_from_lowercase_only_takes_lowercase() {
    assert_eq!(FuturesTypes::from_lowercase("linear"), Ok(FuturesTypes::Linear));
    assert_eq!(FuturesTypes::from_lowercase("Linear"), Err(Error::ParseError));
}

#[test]
fn futures_type_default_and_text() {
    assert_eq!(FuturesTypes::default(), FuturesTypes::Linear);
    assert_eq!(FuturesTypes::Linear.to_string(), "Linear");
    assert_eq!(FuturesTypes::Inverse.to_string(), "Inverse");
}
