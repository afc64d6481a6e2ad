use iggy::error::Error;
use iggy::identifier::{IdKind, Identifier};

#[test]
fn numeric_identifier_round_trips_through_bytes() {
    let id = Identifier::numeric(42).unwrap();
    assert_eq!(id.get_u32_value(), Ok(42));
    assert_eq!(id.get_size_bytes(), 6);

    let bytes = id.as_bytes();
    assert_eq!(bytes[0], 1);
    assert_eq!(bytes[1], 4);
    let decoded = Identifier::from_bytes(&bytes).unwrap();
    assert_eq!(decoded.get_u32_value(), Ok(42));
    assert_eq!(decoded.length, 4);
}

#[test]
fn string_identifier_round_trips_through_bytes() {
    let id = Identifier::string("orders").unwrap();
    assert_eq!(id.get_string_value().unwrap(), "orders");
    assert_eq!(id.length, 6);
    assert_eq!(id.get_size_bytes(), 8);

    let bytes = id.as_bytes();
    assert_eq!(bytes[0], 2);
    assert_eq!(bytes[1], 6);
    let decoded = Identifier::from_bytes(&bytes).unwrap();
    assert_eq!(decoded.get_string_value().unwrap(), "orders");
}

#[test]
fn numeric_zero_is_rejected() {
    assert!(Identifier::numeric(0).is_err());
}

#[test]
fn string_length_bounds_are_enforced() {
    assert!(Identifier::string("").is_err());
    let long = "x".repeat(256);
    assert!(Identifier::string(&long).is_err());
    let max = "x".repeat(255);
    assert!(Identifier::string(&max).is_ok());
}

#[test]
fn wrong_kind_accessors_fail() {
    let numeric = Identifier::numeric(7).unwrap();
    assert_eq!(numeric.get_string_value(), Err(Error::InvalidCommand));
    let string = Identifier::string("name").unwrap();
    assert_eq!(string.get_u32_value(), Err(Error::InvalidCommand));
}

#[test]
fn as_string_renders_both_kinds() {
    assert_eq!(Identifier::numeric(123).unwrap().as_string(), "123");
    assert_eq!(Identifier::string("events").unwrap().as_string(), "events");
}

#[test]
fn from_str_value_picks_the_kind() {
    let numeric = Identifier::from_str_value("42").unwrap();
    assert_eq!(numeric.get_u32_value(), Ok(42));
    let string = Identifier::from_str_value("events").unwrap();
    assert_eq!(string.get_string_value().unwrap(), "events");
    assert!(Identifier::from_str_value("").is_err());
    assert!(Identifier::from_str_value("0").is_err());
}

#[test]
fn from_identifier_copies() {
    let id = Identifier::string("copy-me").unwrap();
    let copy = Identifier::from_identifier(&id);
    assert_eq!(copy.get_string_value().unwrap(), "copy-me");
    assert_eq!(copy.length, id.length);
}

#[test]
fn default_identifier_is_numeric_one() {
    let id = Identifier::default();
    assert_eq!(id.get_u32_value(), Ok(1));
}

#[test]
fn id_kind_codes_round_trip() {
    assert_eq!(IdKind::Numeric.as_code(), 1);
    assert_eq!(IdKind::String.as_code(), 2);
    assert_eq!(IdKind::from_code(1), Ok(IdKind::Numeric));
    assert_eq!(IdKind::from_code(2), Ok(IdKind::String));
    assert_eq!(IdKind::from_code(3), Err(Error::InvalidCommand));
}

#[test]
fn id_kind_parses_text() {
    assert_eq!(IdKind::from_str("n"), Ok(IdKind::Numeric));
    assert_eq!(IdKind::from_str("numeric"), Ok(IdKind::Numeric));
    assert_eq!(IdKind::from_str("s"), Ok(IdKind::String));
    assert_eq!(IdKind::from_str("string"), Ok(IdKind::String));
    assert_eq!(IdKind::from_str("other"), Err(Error::InvalidCommand));
    assert_eq!(IdKind::Numeric.as_string(), "numeric");
    assert_eq!(IdKind::String.as_string(), "string");
}

#[test]
fn string_value_is_decoded_leniently() {
    let id = Identifier::from_bytes(&[2, 2, 0xff, 0xfe]).unwrap();
    assert_eq!(id.get_string_value().unwrap(), "\u{fffd}\u{fffd}");
}

#[test]
fn from_bytes_rejects_truncated_input() {
    assert!(Identifier::from_bytes(&[1, 4]).is_err());
    assert!(Identifier::from_bytes(&[3, 1, 65]).is_err());
    assert!(Identifier::from_bytes(&[2, 5, 65, 66]).is_err());
}
