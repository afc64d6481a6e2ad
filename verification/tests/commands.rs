use iggy::commands::DeleteStream;
use iggy::compression::CompressionAlg;
use iggy::error::Error;
use iggy::get_path;

#[test]
fn delete_stream_parses_one_field() {
    let command = DeleteStream::try_from_parts(&["42"]).unwrap();
    assert_eq!(command.stream_id, 42);
    assert_eq!(
        DeleteStream::try_from_parts(&[]),
        Err(Error::InvalidCommand)
    );
    assert_eq!(
        DeleteStream::try_from_parts(&["1", "2"]),
        Err(Error::InvalidCommand)
    );
    assert_eq!(
        DeleteStream::try_from_parts(&["x"]),
        Err(Error::InvalidCommand)
    );
}

#[test]
fn delete_stream_round_trips_through_bytes() {
    let command = DeleteStream { stream_id: 7 };
    let bytes = command.as_bytes();
    assert_eq!(bytes, 7u32.to_le_bytes().to_vec());
    let decoded = DeleteStream::from_bytes(&bytes).unwrap();
    assert_eq!(decoded.stream_id, 7);
    assert_eq!(DeleteStream::from_bytes(&[1, 2]), Err(Error::InvalidCommand));
}

#[test]
fn compression_alg_parses_both_spellings() {
    assert_eq!(CompressionAlg::from_str("producer"), Ok(CompressionAlg::Producer));
    assert_eq!(CompressionAlg::from_str("Producer"), Ok(CompressionAlg::Producer));
    assert_eq!(CompressionAlg::from_str("gzip"), Ok(CompressionAlg::Gzip));
    assert_eq!(CompressionAlg::from_str("Gzip"), Ok(CompressionAlg::Gzip));
    assert_eq!(
        CompressionAlg::from_str("snappy"),
        Err(Error::InvalidCommand)
    );
}

#[test]
fn compression_alg_serializes_to_lower_case_labels() {
    assert_eq!(CompressionAlg::Producer.as_code_str(), "producer");
    assert_eq!(CompressionAlg::Gzip.as_code_str(), "gzip");
    assert_eq!(CompressionAlg::default(), CompressionAlg::Producer);
}

#[test]
fn get_path_names_the_messages_endpoint() {
    assert_eq!(get_path("1", "2"), "streams/1/topics/2/messages");
    assert_eq!(
        get_path("orders", "events"),
        "streams/orders/topics/events/messages"
    );
}

#[test]
fn error_codes_are_stable() {
    assert_eq!(Error::InvalidOffset(9).as_code_str(), "invalid_offset");
    assert_eq!(
        Error::StreamAlreadyExists(1).as_code_str(),
        "stream_already_exists"
    );
    assert_eq!(Error::StreamNotFound(1).as_code_str(), "stream_not_found");
}
