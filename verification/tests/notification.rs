use pomodoro::error::NotificationError;
use pomodoro::notification::{get_new_notification_sled, NotificationSled};

#[test]
fn expiry_times_follow_from_creation() {
    let n = NotificationSled::new(String::from("deep work"), 10, 5, 1_000);
    let (_, description, work_time, break_time, created_at, work_expired_at, break_expired_at) =
        n.get_values();
    assert_eq!(description, "deep work");
    assert_eq!(work_time, 10);
    assert_eq!(break_time, 5);
    assert_eq!(created_at, 1_000);
    assert_eq!(work_expired_at, 1_000 + 10 * 60);
    assert_eq!(break_expired_at, 1_000 + 10 * 60 + 5 * 60);
}

#[test]
fn start_at_equals_creation_time() {
    let n = NotificationSled::new(String::new(), 25, 5, 123_456);
    assert_eq!(n.get_start_at(), 123_456);

    let work_only = NotificationSled::new(String::new(), 25, 0, 777);
    assert_eq!(work_only.get_start_at(), 777);

    let break_only = NotificationSled::new(String::new(), 0, 5, 42);
    assert_eq!(break_only.get_start_at(), 42);
}

#[test]
fn all_zero_times_are_rejected() {
    let r = get_new_notification_sled(0, 0, String::from("never"), 50);
    assert!(matches!(r, Err(NotificationError::EmptyTimeValues)));
}

#[test]
fn one_nonzero_time_is_accepted() {
    assert!(get_new_notification_sled(1, 0, String::new(), 50).is_ok());
    assert!(get_new_notification_sled(0, 1, String::new(), 50).is_ok());
}

#[test]
fn percentage_halfway_through_work() {
    // Ten minutes of work, asked exactly five minutes after the start.
    let n = NotificationSled::new(String::new(), 10, 0, 1_000);
    assert_eq!(n.get_work_percentage(1_000 + 5 * 60), 50);
}

#[test]
fn percentage_before_start_is_zero() {
    let n = NotificationSled::new(String::new(), 10, 0, 1_000);
    assert_eq!(n.get_work_percentage(999), 0);
}

#[test]
fn percentage_after_work_expiry_is_hundred() {
    let n = NotificationSled::new(String::new(), 10, 0, 1_000);
    assert_eq!(n.get_work_percentage(1_000 + 10 * 60), 100);
    assert_eq!(n.get_work_percentage(1_000 + 11 * 60), 100);
}

#[test]
fn percentage_at_start_is_zero() {
    let n = NotificationSled::new(String::new(), 10, 0, 1_000);
    assert_eq!(n.get_work_percentage(1_000), 0);
}

#[test]
fn percentage_without_work_time_is_hundred() {
    let n = NotificationSled::new(String::new(), 0, 5, 1_000);
    assert_eq!(n.get_work_percentage(1_000), 100);
}

#[test]
fn largest_phase_lengths_are_supported() {
    let n = NotificationSled::new(String::new(), u16::MAX, u16::MAX, 0);
    let (_, _, _, _, created_at, work_expired_at, break_expired_at) = n.get_values();
    assert_eq!(created_at, 0);
    assert_eq!(work_expired_at, 65_535 * 60);
    assert_eq!(break_expired_at, 2 * 65_535 * 60);
    assert_eq!(n.get_start_at(), 0);
}

#[test]
fn activity_tracks_both_phases() {
    let n = NotificationSled::new(String::new(), 10, 5, 1_000);
    assert!(n.is_active(1_000));
    assert!(n.is_active(1_000 + 10 * 60 + 5 * 60 - 1));
    assert!(!n.is_active(1_000 + 10 * 60 + 5 * 60));
}

#[test]
fn record_bytes_round_trip() {
    let n = NotificationSled::new(String::from("stored \u{1f345}"), 25, 5, 9_999);
    let bytes = n.encode();
    let decoded = NotificationSled::decode(&bytes).expect("a stored record must decode");
    assert_eq!(decoded, n);
}

#[test]
fn record_decode_rejects_garbage() {
    assert!(NotificationSled::decode(&Vec::new()).is_none());
    assert!(NotificationSled::decode(&vec![0u8; 10]).is_none());

    // A record whose expiry fields do not follow from its creation
    // time is rejected.
    let n = NotificationSled::new(String::new(), 10, 5, 1_000);
    let mut bytes = n.encode();
    // The created_at field sits after the 16-byte id and two 2-byte
    // minute counts.
    bytes[20] ^= 1;
    assert!(NotificationSled::decode(&bytes).is_none());

    // Truncated bytes are rejected.
    let mut bytes = n.encode();
    bytes.pop();
    assert!(NotificationSled::decode(&bytes).is_none());
}

#[test]
fn fresh_records_get_distinct_ids() {
    let a = NotificationSled::new(String::new(), 1, 0, 0);
    let b = NotificationSled::new(String::new(), 1, 0, 0);
    assert_ne!(a.get_id(), b.get_id());
}
