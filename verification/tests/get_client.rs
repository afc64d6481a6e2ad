use iggy::commands::GetClient;
use iggy::error::Error;

#[test]
fn should_be_serialized_as_bytes() {
    let command = GetClient { client_id: 1 };

    let bytes = command.as_bytes();
    let client_id = u32::from_le_bytes(bytes[..4].try_into().unwrap());

    assert!(!bytes.is_empty());
    assert_eq!(client_id, command.client_id);
}

#[test]
fn should_be_deserialized_from_bytes() {
    let client_id = 1u32;
    let bytes = client_id.to_le_bytes();
    let command = GetClient::from_bytes(&bytes);
    assert!(command.is_ok());

    let command = command.unwrap();
    assert_eq!(command.client_id, client_id);
}

#[test]
fn should_be_read_from_string() {
    let client_id = 1u32;
    let input = format!("{}", client_id);
    let command = GetClient::from_str(&input);
    assert!(command.is_ok());

    let command = command.unwrap();
    assert_eq!(command.client_id, client_id);
}

#[test]
fn from_bytes_rejects_wrong_length() {
    assert_eq!(GetClient::from_bytes(&[1, 2, 3]), Err(Error::InvalidCommand));
    assert_eq!(GetClient::from_bytes(&[1, 2, 3, 4, 5]), Err(Error::InvalidCommand));
}

#[test]
fn from_bytes_rejects_zero_client_id() {
    let bytes = 0u32.to_le_bytes();
    assert_eq!(GetClient::from_bytes(&bytes), Err(Error::InvalidClientId));
}

#[test]
fn from_str_rejects_extra_fields_and_garbage() {
    assert_eq!(GetClient::from_str("1|2"), Err(Error::InvalidCommand));
    assert_eq!(GetClient::from_str("abc"), Err(Error::InvalidCommand));
    assert_eq!(GetClient::from_str(""), Err(Error::InvalidCommand));
    assert_eq!(GetClient::from_str("0"), Err(Error::InvalidClientId));
}

#[test]
fn validate_rejects_zero() {
    let command = GetClient { client_id: 0 };
    assert_eq!(command.validate(), Err(Error::InvalidClientId));
    let command = GetClient::default();
    assert_eq!(command.client_id, 1);
    assert!(command.validate().is_ok());
}
