use coven_core::blob::locator::{BlobLocator, ExactObjectRef, StoredBlobRef};
use coven_core::blob::retry::{backoff_window, entry_in_backoff, waits_since};
use coven_core::clock::Instant;
use coven_core::digest::ObjectHash;
use coven_core::outbox::{OutboxEntry, OutboxOperation};

#[test]
fn retry_backoff_window_is_exponential_and_capped() {
    assert_eq!(backoff_window(0), 0);
    assert_eq!(backoff_window(1), 30);
    assert_eq!(backoff_window(2), 60);
    assert_eq!(backoff_window(3), 120);
    assert_eq!(backoff_window(8), 3600);
    assert_eq!(backoff_window(50), 3600);
}

#[test]
fn upload_tests_backoff_window_is_exponential_and_capped() {
    assert_eq!(backoff_window(0), 0);
    assert_eq!(backoff_window(1), 30);
    assert_eq!(backoff_window(2), 60);
    assert_eq!(backoff_window(3), 120);
    assert_eq!(backoff_window(8), 3600);
    assert_eq!(backoff_window(50), 3600);
}

#[test]
fn the_window_stays_capped_however_often_it_failed() {
    assert_eq!(backoff_window(-3), 0);
    assert_eq!(backoff_window(7), 1920);
    assert_eq!(backoff_window(4_294_967_297), 3600);
    assert_eq!(backoff_window(i64::MAX), 3600);
}

fn entry(attempt_count: i64, last_attempt_at: Option<&str>) -> OutboxEntry {
    let locator = BlobLocator::browsable(
        "audio".to_string(),
        "abcd-track".to_string(),
        "22".repeat(32),
        "Artist/track.flac".to_string(),
        1,
        ObjectHash::digest(b"x"),
    )
    .unwrap();
    OutboxEntry {
        id: 1,
        operation: OutboxOperation::Delete {
            stored: StoredBlobRef {
                locator,
                object: ExactObjectRef {
                    logical_key: "k".to_string(),
                    stored_size: 1,
                    object_id: ObjectHash::digest(b"o"),
                },
            },
        },
        attempt_count,
        last_attempt_at: last_attempt_at.map(str::to_string),
    }
}

#[test]
fn an_entry_waits_out_its_window() {
    // 2024-06-01T00:00:00Z
    let start: i64 = 1_717_200_000;
    let failed = entry(1, Some("2024-06-01T00:00:00Z"));
    let inside = Instant { seconds: start + 29, nanos: 999_999_999 };
    let after = Instant { seconds: start + 30, nanos: 0 };
    assert!(entry_in_backoff(&failed, &inside));
    assert!(!entry_in_backoff(&failed, &after));
    let zoned = entry(1, Some("2024-06-01T02:00:00+02:00"));
    assert!(entry_in_backoff(&zoned, &inside));
    assert!(!entry_in_backoff(&zoned, &after));
    let last = Instant { seconds: start, nanos: 0 };
    assert!(waits_since(1, &last, &inside));
    assert!(!waits_since(0, &last, &last));
}

#[test]
fn an_entry_that_never_failed_or_has_a_corrupt_time_is_due() {
    let now = Instant { seconds: 1_717_200_000, nanos: 0 };
    assert!(!entry_in_backoff(&entry(0, None), &now));
    assert!(!entry_in_backoff(&entry(5, Some("not-a-timestamp")), &now));
}
