use galaxy::keypad::SerialKeypad;
use galaxy::manager::{PollSession, PollStep};
use galaxy::{DeliveryError, DeviceStatus, ReadError, SerialManager};

fn online_manager() -> SerialManager<SerialKeypad> {
    let mut mgr: SerialManager<SerialKeypad> = SerialManager::new();
    mgr.register_device(0x10, SerialKeypad::new());

    let frame = mgr.prepare_poll(0x10);
    assert_eq!(frame, vec![0x10, 0x00, 0x0E]);

    let mut sess = PollSession::new();
    let reply = [0x11, 0xFF, 0x08, 0x00, 0x64];
    let outcome = match sess.on_attempt(Ok(reply.len()), &reply) {
        PollStep::Done(o) => o,
        PollStep::Retry => panic!("successful init reply must not be retried"),
    };
    assert!(mgr.finish_poll(0x10, outcome).is_ok());
    assert_eq!(mgr.device_status(0x10), DeviceStatus::OnlineOK);
    assert_eq!(mgr.device_failures(0x10), 0);
    mgr
}

#[test]
fn test_registration_and_first_poll() {
    let mut mgr: SerialManager<SerialKeypad> = SerialManager::new();
    mgr.register_device(0x10, SerialKeypad::new());
    assert_eq!(mgr.device_ids(), vec![0x10]);
    assert_eq!(mgr.device_status(0x10), DeviceStatus::Unknown);
    assert_eq!(mgr.prepare_poll(0x10), vec![0x10, 0x00, 0x0E]);
}

#[test]
fn test_bad_checksum_reply_retries_then_resets_device() {
    let mut mgr = online_manager();

    // The device is online: the next frame resynchronises the backlight.
    let frame = mgr.prepare_poll(0x10);
    assert_eq!(frame[0], 0x10);
    assert_eq!(frame[1], 0x0D);

    // A reply whose command byte says "bad checksum" is retried until the
    // attempts are exhausted...
    let mut sess = PollSession::new();
    let bad = [0x11, 0xF2];
    assert!(matches!(sess.on_attempt(Ok(bad.len()), &bad), PollStep::Retry));
    assert!(matches!(sess.on_attempt(Ok(bad.len()), &bad), PollStep::Retry));
    let outcome = match sess.on_attempt(Ok(bad.len()), &bad) {
        PollStep::Done(o) => o,
        PollStep::Retry => panic!("third attempt must be final"),
    };
    let msg = outcome.as_ref().ok().unwrap();
    assert_eq!(msg.command, 0xF2);

    // ...and the delivered reply resets the keypad to uninitialised.
    assert!(mgr.finish_poll(0x10, outcome).is_ok());
    assert_eq!(mgr.prepare_poll(0x10), vec![0x10, 0x00, 0x0E]);
}

#[test]
fn test_timeouts_mark_device_offline_and_backed_off() {
    let mut mgr = online_manager();

    let _ = mgr.prepare_poll(0x10);
    let mut sess = PollSession::new();
    let empty: [u8; 0] = [];
    assert!(matches!(sess.on_attempt(Err(ReadError::NoData), &empty), PollStep::Retry));
    assert!(matches!(sess.on_attempt(Err(ReadError::NoData), &empty), PollStep::Retry));
    let outcome = match sess.on_attempt(Err(ReadError::NoData), &empty) {
        PollStep::Done(o) => o,
        PollStep::Retry => panic!("third attempt must be final"),
    };
    assert!(matches!(outcome, Err(DeliveryError::Timeout)));

    let res = mgr.finish_poll(0x10, outcome);
    assert!(matches!(res, Err(DeliveryError::Timeout)));
    assert_eq!(mgr.device_status(0x10), DeviceStatus::Offline);
    assert_eq!(mgr.device_failures(0x10), 1);

    // The freshly marked device is skipped for one cycle, polled again on
    // the next, and its record forgotten on the one after.
    assert_eq!(mgr.visit_backoff(0x10), Some(1));
    assert_eq!(mgr.visit_backoff(0x10), None);
    assert_eq!(mgr.visit_backoff(0x10), None);
}

#[test]
fn test_corrupt_replies_accumulate_failures_until_success() {
    let mut mgr = online_manager();

    for expect_failures in 1..=3u16 {
        let _ = mgr.prepare_poll(0x10);
        let mut sess = PollSession::new();
        let empty: [u8; 0] = [];
        let mut last = None;
        for _ in 0..3 {
            match sess.on_attempt(Err(ReadError::CrcCheckFailed), &empty) {
                PollStep::Retry => {}
                PollStep::Done(o) => last = Some(o),
            }
        }
        let outcome = last.expect("three failed attempts end the poll");
        assert!(matches!(outcome, Err(DeliveryError::CrcFailed)));
        let _ = mgr.finish_poll(0x10, outcome);
        assert_eq!(mgr.device_status(0x10), DeviceStatus::OnlineCorruptReplies);
        assert_eq!(mgr.device_failures(0x10), expect_failures);
    }

    // One success wipes the counter.
    let _ = mgr.prepare_poll(0x10);
    let mut sess = PollSession::new();
    let ack = [0x11, 0xFE];
    let outcome = match sess.on_attempt(Ok(ack.len()), &ack) {
        PollStep::Done(o) => o,
        PollStep::Retry => panic!("an acknowledgement must not be retried"),
    };
    assert!(mgr.finish_poll(0x10, outcome).is_ok());
    assert_eq!(mgr.device_status(0x10), DeviceStatus::OnlineOK);
    assert_eq!(mgr.device_failures(0x10), 0);
}

#[test]
fn test_attempt_interpretation_maps_read_errors() {
    let empty: [u8; 0] = [];
    let cases: [(ReadError, DeliveryError); 4] = [
        (ReadError::NoData, DeliveryError::Timeout),
        (ReadError::Timeout, DeliveryError::Timeout),
        (ReadError::CrcCheckFailed, DeliveryError::CrcFailed),
        (ReadError::InsufficientData, DeliveryError::CrcFailed),
    ];
    for (read, delivery) in cases {
        let r = galaxy::manager::interpret_attempt(Err(read), &empty);
        assert_eq!(r.err(), Some(delivery));
    }
    let r = galaxy::manager::interpret_attempt(Err(ReadError::InvalidReplyRecipient(0x33)), &empty);
    assert_eq!(
        r.err(),
        Some(DeliveryError::BusError(ReadError::InvalidReplyRecipient(0x33)))
    );
    // A reply too short to parse is a deserialisation error.
    let short = [0x11];
    let r = galaxy::manager::interpret_attempt(Ok(short.len()), &short);
    assert_eq!(
        r.err(),
        Some(DeliveryError::DeserialisationError(
            galaxy::DeserialisationError::MissingCommand
        ))
    );
}
