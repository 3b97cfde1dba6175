use galaxy::keypad::{
    Backlight, Beeper, Event, EventType, InvalidReplyCommandByteError, KeyClicks, ReplyCommand,
    SerialKeypad, UpdateFlag,
};
use galaxy::SerialMessage;

fn reply(command: u8, data: &[u8]) -> Result<SerialMessage, galaxy::DeliveryError> {
    Ok(SerialMessage {
        recipient_address: 0x11,
        command,
        additional_data: if data.is_empty() {
            None
        } else {
            Some(data.to_vec())
        },
    })
}

/// Bring a fresh keypad online and drain the four forced resync commands,
/// leaving it quiescent (next message would be a ping).
fn initialised_keypad() -> SerialKeypad {
    let mut kp = SerialKeypad::new();
    let (cmd, data) = kp.next_message();
    assert_eq!((cmd, data), (0x00, Some(vec![0x0E])));
    kp.receive_update(reply(0xFF, &[0x08, 0x00, 0x64]));
    for expect in [0x0D, 0x0C, 0x19, 0x07] {
        let (cmd, _) = kp.next_message();
        assert_eq!(cmd, expect);
    }
    let (cmd, data) = kp.next_message();
    assert_eq!((cmd, data), (0x06, None));
    kp
}

#[test]
fn test_beeper_intermittent() {
    assert_eq!(
        Beeper::new_intermittent(200, 24 * 1000),
        Beeper::Intermittent {
            on_time: 0x02,
            off_time: 0xF0
        },
    )
}

#[test]
fn test_update_flag() {
    let mut flag: UpdateFlag<0xFF> = UpdateFlag(false);
    assert_eq!(flag.get_toggle(), 0x0);
    assert_eq!(flag.get_toggle(), 0xFF);
    assert_eq!(flag.get_toggle(), 0x0);
}

#[test]
fn test_reply_command_codes() {
    assert_eq!(ReplyCommand::from_code(0xFF), Ok(ReplyCommand::Initialised));
    assert_eq!(ReplyCommand::from_code(0xFE), Ok(ReplyCommand::Ack));
    assert_eq!(ReplyCommand::from_code(0xF4), Ok(ReplyCommand::AckWithKey));
    assert_eq!(ReplyCommand::from_code(0xF2), Ok(ReplyCommand::BadChecksum));
    assert_eq!(
        ReplyCommand::from_code(0x42),
        Err(InvalidReplyCommandByteError(0x42))
    );
    assert_eq!(ReplyCommand::Initialised.code(), 0xFF);
    assert_eq!(ReplyCommand::BadChecksum.code(), 0xF2);
}

#[test]
fn test_keypad_init_sequence() {
    let mut kp = SerialKeypad::new();
    let (cmd, data) = kp.next_message();
    assert_eq!((cmd, data), (0x00, Some(vec![0x0E])));

    kp.receive_update(reply(0xFF, &[0x08, 0x00, 0x64]));

    // All four subsystems are forced after initialisation, so the next
    // message is never a ping.
    let (cmd, _) = kp.next_message();
    assert_ne!(cmd, 0x06);
    assert_eq!(cmd, 0x0D); // backlight has the highest priority
}

#[test]
fn test_init_with_wrong_payload_is_ignored() {
    let mut kp = SerialKeypad::new();
    let _ = kp.next_message();
    kp.receive_update(reply(0xFF, &[0x01, 0x02, 0x03]));
    let (cmd, data) = kp.next_message();
    assert_eq!((cmd, data), (0x00, Some(vec![0x0E])));
    kp.receive_update(reply(0xFF, &[0x08, 0x00]));
    let (cmd, _) = kp.next_message();
    assert_eq!(cmd, 0x00);
}

#[test]
fn test_key_event_and_ack_ordering() {
    let mut kp = initialised_keypad();

    kp.receive_update(reply(0xF4, &[0x05]));
    assert_eq!(kp.drain_events(), vec![Event(EventType::KeyPress('5'))]);

    let (cmd, data) = kp.next_message();
    assert_eq!((cmd, data), (0x0B, Some(vec![0x00])));

    kp.receive_update(reply(0xF4, &[0x05]));
    assert_eq!(kp.drain_events(), vec![Event(EventType::KeyPress('5'))]);

    let (cmd, data) = kp.next_message();
    assert_eq!((cmd, data), (0x0B, Some(vec![0x02])));
}

#[test]
fn test_duplicate_key_report_is_dropped() {
    let mut kp = initialised_keypad();

    kp.receive_update(reply(0xF4, &[0x05]));
    assert_eq!(kp.drain_events().len(), 1);

    // A second report while the acknowledgement is still pending is a
    // duplicate and publishes nothing.
    kp.receive_update(reply(0xF4, &[0x05]));
    assert_eq!(kp.drain_events().len(), 0);
}

#[test]
fn test_tamper_encoding() {
    let mut kp = initialised_keypad();

    kp.receive_update(reply(0xF4, &[0x7F]));
    assert!(kp.is_tamper());
    assert_eq!(kp.drain_events().len(), 0);

    kp.receive_update(reply(0xF4, &[0x45]));
    assert!(kp.is_tamper());
    assert_eq!(kp.drain_events(), vec![Event(EventType::KeyPress('5'))]);
}

#[test]
fn test_ack_clears_tamper() {
    let mut kp = initialised_keypad();
    kp.receive_update(reply(0xF4, &[0x7F]));
    assert!(kp.is_tamper());
    kp.receive_update(reply(0xFE, &[]));
    assert!(!kp.is_tamper());
}

#[test]
fn test_delivery_error_resets_to_offline() {
    let mut kp = initialised_keypad();
    kp.receive_update(Err(galaxy::DeliveryError::Timeout));
    let (cmd, data) = kp.next_message();
    assert_eq!((cmd, data), (0x00, Some(vec![0x0E])));
}

#[test]
fn test_bad_checksum_reply_resets_to_offline() {
    let mut kp = initialised_keypad();
    kp.receive_update(reply(0xF2, &[]));
    let (cmd, data) = kp.next_message();
    assert_eq!((cmd, data), (0x00, Some(vec![0x0E])));
}

#[test]
fn test_unknown_reply_changes_nothing() {
    let mut kp = initialised_keypad();
    kp.receive_update(reply(0x42, &[0x01]));
    let (cmd, data) = kp.next_message();
    assert_eq!((cmd, data), (0x06, None));
}

#[test]
fn test_state_diff_drives_commands() {
    let mut kp = initialised_keypad();

    kp.mutate_state(|mut s| {
        s.backlight = Backlight::On;
        s
    });
    let (cmd, data) = kp.next_message();
    assert_eq!((cmd, data), (0x0D, Some(vec![0x01])));

    kp.mutate_state(|mut s| {
        s.beeper = Beeper::Intermittent {
            on_time: 0x02,
            off_time: 0xF0,
        };
        s
    });
    let (cmd, data) = kp.next_message();
    assert_eq!((cmd, data), (0x0C, Some(vec![0x03, 0x02, 0xF0])));

    kp.mutate_state(|mut s| {
        s.key_clicks = KeyClicks::Quiet;
        s
    });
    let (cmd, data) = kp.next_message();
    assert_eq!((cmd, data), (0x19, Some(vec![0x05])));

    // Quiescent again.
    let (cmd, data) = kp.next_message();
    assert_eq!((cmd, data), (0x06, None));
}

#[test]
fn test_screen_update_carries_freshness_and_blink_flags() {
    let mut kp = initialised_keypad();

    kp.mutate_state(|mut s| {
        s.blink = true;
        s.screen.lines[0] = b"HELLO".to_vec();
        s
    });
    let (cmd, data) = kp.next_message();
    assert_eq!(cmd, 0x07);
    let data = data.unwrap();
    // Second emission of the screen flag (the first was the post-init
    // resync), no key ack pending, blink set.
    assert_eq!(data[0], 0x01 | 0x80 | 0x08);

    kp.mutate_state(|mut s| {
        s.screen.lines[0] = b"WORLD".to_vec();
        s
    });
    let (_, data) = kp.next_message();
    // Third emission: the freshness bit is clear again.
    assert_eq!(data.unwrap()[0], 0x01 | 0x08);
}
