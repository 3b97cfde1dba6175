use galaxy::{DeserialisationError, SerialMessage};

#[test]
fn test_deserialise_success() {
    let data = vec![0x10, 0x20, 0x30, 0x40, 0x4B];
    let result = SerialMessage::deserialise(&data);

    assert!(result.is_ok());
    let msg = result.unwrap();
    assert_eq!(msg.recipient_address, 0x10);
    assert_eq!(msg.command, 0x20);
    assert_eq!(msg.additional_data.unwrap(), vec![0x30, 0x40]);
}

#[test]
fn test_deserialise_crc_failure() {
    let data = vec![0x10, 0x20, 0x30, 0x40, 0xAB]; // Incorrect CRC
    let result = SerialMessage::deserialise(&data);

    assert!(result.is_err());
    assert_eq!(result.err(), Some(DeserialisationError::CrcFailed));
}

#[test]
fn test_deserialise_missing_fields() {
    let data = vec![0x10, 0x20]; // Missing additional data and CRC
    let result = SerialMessage::deserialise(&data);

    assert!(result.is_err());
    assert_eq!(result.err(), Some(DeserialisationError::MissingCrc));
}

#[test]
fn test_deserialise_unchecked_success() {
    let data = vec![0x10, 0x20, 0x30, 0x40]; // No CRC
    let result = SerialMessage::deserialise_unchecked(&data);

    assert!(result.is_ok());
    let msg = result.unwrap();
    assert_eq!(msg.recipient_address, 0x10);
    assert_eq!(msg.command, 0x20);
    assert_eq!(msg.additional_data.unwrap(), vec![0x30, 0x40]);
}

#[test]
fn test_deserialise_unchecked_missing_fields() {
    let data = vec![0x10, 0x20]; // Missing additional data
    let result = SerialMessage::deserialise_unchecked(&data);

    assert!(result.is_ok());
    let msg = result.unwrap();
    assert_eq!(msg.recipient_address, 0x10);
    assert_eq!(msg.command, 0x20);
    assert!(msg.additional_data.is_none());
}

#[test]
fn test_deserialise_unchecked_no_additional_data() {
    let data = vec![0x01, 0x02]; // No additional data
    let result = SerialMessage::deserialise_unchecked(&data);

    assert_eq!(result.unwrap().additional_data, None);
}

#[test]
fn test_serialise_no_additional_data() {
    let msg = SerialMessage {
        recipient_address: 0x01,
        command: 0x02,
        additional_data: None,
    };

    let expected_output = vec![0x01, 0x02, 0xAD];

    assert_eq!(msg.serialise(), expected_output);
}

#[test]
fn test_serialise_with_additional_data() {
    let msg = SerialMessage {
        recipient_address: 0x01,
        command: 0x02,
        additional_data: Some(vec![0x03, 0x04]),
    };

    let expected_output = vec![0x01, 0x02, 0x03, 0x04, 0xB4];

    assert_eq!(msg.serialise(), expected_output);
}

#[test]
fn test_serialise_without_crc_no_additional_data() {
    let msg = SerialMessage {
        recipient_address: 0x01,
        command: 0x02,
        additional_data: None,
    };

    let expected_output = vec![0x01, 0x02];

    assert_eq!(msg.serialise_without_crc(), expected_output);
}

#[test]
fn test_serialise_without_crc_with_additional_data() {
    let msg = SerialMessage {
        recipient_address: 0x01,
        command: 0x02,
        additional_data: Some(vec![0x03, 0x04]),
    };

    let expected_output = vec![0x01, 0x02, 0x03, 0x04];

    assert_eq!(msg.serialise_without_crc(), expected_output);
}

#[test]
fn test_serialise_deserialise_round_trip() {
    let msg = SerialMessage {
        recipient_address: 0x10,
        command: 0x07,
        additional_data: Some(vec![0x01, 0x55, 0x03, 0x45]),
    };
    let parsed = SerialMessage::deserialise(&msg.serialise()).unwrap();
    assert_eq!(parsed.recipient_address, 0x10);
    assert_eq!(parsed.command, 0x07);
    assert_eq!(parsed.additional_data, Some(vec![0x01, 0x55, 0x03, 0x45]));
}

#[test]
fn test_round_trip_without_data_stays_without_data() {
    let msg = SerialMessage {
        recipient_address: 0x11,
        command: 0xFE,
        additional_data: None,
    };
    let parsed = SerialMessage::deserialise(&msg.serialise()).unwrap();
    assert_eq!(parsed.recipient_address, 0x11);
    assert_eq!(parsed.command, 0xFE);
    assert_eq!(parsed.additional_data, None);
}

#[test]
fn test_deserialise_empty_and_single_byte() {
    assert_eq!(
        SerialMessage::deserialise(&[]).err(),
        Some(DeserialisationError::MissingRecipient)
    );
    // A single byte: the checksum-less prefix is empty, so not even a
    // recipient can be read from it.
    assert_eq!(
        SerialMessage::deserialise(&[0x10]).err(),
        Some(DeserialisationError::MissingRecipient)
    );
    assert_eq!(
        SerialMessage::deserialise_unchecked(&[]).err(),
        Some(DeserialisationError::MissingRecipient)
    );
    assert_eq!(
        SerialMessage::deserialise_unchecked(&[0x10]).err(),
        Some(DeserialisationError::MissingCommand)
    );
}
