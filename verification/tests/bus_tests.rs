use galaxy::bus::{response_delay_ms, validate_reply, INTERPACKET_GAP_MS};
use galaxy::ReadError;

#[test]
fn test_validate_reply_accepts_well_formed_frame() {
    // 0x11 0xFE framed with its checksum: a quiescent acknowledgement.
    let crc = galaxy::galaxy_crc(&[0x11, 0xFE]);
    let reply = [0x11, 0xFE, crc, 0x00];
    let r = validate_reply(&reply, 3);
    assert_eq!(r.ok(), Some(2)); // checksum stripped
}

#[test]
fn test_validate_reply_rejections_in_order() {
    let buf = [0x11, 0xFE, 0xAB, 0x00];
    assert_eq!(validate_reply(&buf, 0).err(), Some(ReadError::NoData));
    assert_eq!(
        validate_reply(&buf, 2).err(),
        Some(ReadError::InsufficientData)
    );
    let wrong_addr = [0x23, 0xFE, 0xAB];
    assert_eq!(
        validate_reply(&wrong_addr, 3).err(),
        Some(ReadError::InvalidReplyRecipient(0x23))
    );
    // Correct address but wrong checksum.
    assert_eq!(
        validate_reply(&buf, 3).err(),
        Some(ReadError::CrcCheckFailed)
    );
}

#[test]
fn test_response_delay_accounts_for_frame_length() {
    // Gap + stop bit + 10 ms per byte of frame and checksum.
    assert_eq!(response_delay_ms(4), INTERPACKET_GAP_MS + 1 + 10 * 5);
    assert_eq!(response_delay_ms(0), 21);
}
