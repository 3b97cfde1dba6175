use std::collections::VecDeque;

use galaxy::BackoffState;

#[test]
fn test_device_not_in_backoff() {
    let mut boff = BackoffState::new();

    assert_eq!(boff.visit_device(3), None);
}

#[test]
fn test_device_in_backoff_then_active() {
    let mut boff = BackoffState::new();

    boff.mark_device_backoff(3);
    assert_eq!(boff.visit_device(3), Some(1));
    assert_eq!(boff.visit_device(3), None);
    // This visit means the device is now effectively active, meaning
    // subsequent marking in backoff should start again at 1 step.
    assert_eq!(boff.visit_device(3), None);

    boff.mark_device_backoff(3);
    assert_eq!(boff.visit_device(3), Some(1));
    assert_eq!(boff.visit_device(3), None);
    // This visit means the device is now effectively active, meaning
    // subsequent marking in backoff should start again at 1 step.
    assert_eq!(boff.visit_device(3), None);
}

#[test]
fn test_device_in_backoff_then_inactive() {
    let mut boff = BackoffState::new();

    boff.mark_device_backoff(3);
    // effective delay is 1 iteration
    assert_eq!(boff.visit_device(3), Some(1));
    assert_eq!(boff.visit_device(3), None);

    // Device is still inactive. Effective delay is 2 iterations
    boff.mark_device_backoff(3);
    assert_eq!(boff.visit_device(3), Some(2));
    assert_eq!(boff.visit_device(3), Some(1));
    assert_eq!(boff.visit_device(3), None);
}

#[test]
fn test_device_max_backoff() {
    let mut boff = BackoffState::new();

    let mut expect = VecDeque::from(vec![1, 2, 4, 8, 16, 16, 16, 16, 16, 16]);

    for i in 0..10 {
        println!("Loop iteration {}", i);
        boff.mark_device_backoff(3);

        for _ in 0..(expect.pop_front().unwrap()) {
            println!("Visiting device");
            assert!(boff.visit_device(3).is_some())
        }

        assert_eq!(boff.visit_device(3), None)
    }
}

#[test]
fn test_backoff_devices_are_independent() {
    let mut boff = BackoffState::new();

    boff.mark_device_backoff(3);
    boff.mark_device_backoff(7);
    assert_eq!(boff.visit_device(3), Some(1));
    assert_eq!(boff.visit_device(9), None);
    assert_eq!(boff.visit_device(7), Some(1));
    assert_eq!(boff.visit_device(3), None);
    assert_eq!(boff.visit_device(7), None);
}
