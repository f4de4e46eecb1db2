use coven_core::blob::{
    content_hash, BlobScope, CloudBlobLocation, ContentHasher, TransferLimit, TransferLimits,
};
use coven_core::clock::Instant;
use coven_core::digest::{decode_hex, CircleId, KeyFingerprint, ObjectHash};
use coven_core::hlc::timestamp_is_well_formed;
use coven_core::session::quote_ident;
use coven_core::storage::StorageError;
use coven_core::text::{decimal_text, signed_decimal_text};

fn stamp() -> String {
    format!("0000000001000-0000-{}", "d".repeat(64))
}

#[test]
fn generated_location_uses_a_fixed_length_object_token() {
    let stamp = format!("0000000001000-0000-{}", "d".repeat(64));
    let location = CloudBlobLocation::generated("aa11".to_string(), &stamp);

    assert_eq!(location.generation.len(), 64);
    location.validate().expect("generated location is valid");
}

#[test]
fn location_rejects_missing_or_malformed_current_fields() {
    let missing_generation = format!(
        "{{\"uploader\":\"aa11\",\"version\":\"0000000001000-0000-{}\"}}",
        "d".repeat(64)
    );
    assert!(CloudBlobLocation::from_json(missing_generation.as_bytes()).is_none());

    for generation in ["a".repeat(63), "a".repeat(65), "A".repeat(64)] {
        let written = format!(
            "{{\"uploader\":\"aa11\",\"generation\":\"{}\",\"version\":\"0000000001000-0000-{}\"}}",
            generation,
            "d".repeat(64)
        );
        let location = CloudBlobLocation::from_json(written.as_bytes()).unwrap();
        assert!(location.validate().is_err());
    }
}

#[test]
fn a_location_round_trips_through_its_json() {
    let location = CloudBlobLocation::generated("aa11".to_string(), &stamp());
    let read = CloudBlobLocation::from_json(&location.to_json()).unwrap();
    assert_eq!(read, location);
    assert!(CloudBlobLocation::from_json(b"[]").is_none());
    assert!(CloudBlobLocation::from_json(b"{\"uploader\":1,\"generation\":\"\",\"version\":\"\"}").is_none());
}

#[test]
fn each_fault_of_a_location_is_said_in_words() {
    let sound = CloudBlobLocation::generated("aa11".to_string(), &stamp());
    let mut uploader = sound.clone();
    uploader.uploader = "a/b".to_string();
    assert_eq!(
        uploader.validate().unwrap_err(),
        "path token holds a separator or a NUL"
    );
    let mut generation = sound.clone();
    generation.generation = "abc".to_string();
    assert_eq!(
        generation.validate().unwrap_err(),
        "blob generation must be exactly 64 lowercase hexadecimal characters"
    );
    generation.generation = String::new();
    assert_eq!(generation.validate().unwrap_err(), "path token is empty");
    let mut version = sound.clone();
    version.version = "yesterday".to_string();
    assert_eq!(
        version.validate().unwrap_err(),
        "blob location version must be an HLC timestamp"
    );
}

#[test]
fn a_content_hash_is_the_lowercase_digest() {
    assert_eq!(
        content_hash(b"abc"),
        "ba7816bf8f01cfea414140de5dae2223b00361a396177a9cb410ff61f20015ad"
    );
    assert_eq!(
        content_hash(b""),
        "e3b0c44298fc1c149afbf4c8996fb92427ae41e4649b934ca495991b7852b855"
    );
}

#[test]
fn hashing_in_chunks_gives_the_hash_of_the_whole() {
    let mut hasher = ContentHasher::new();
    hasher.update(b"a");
    hasher.update(b"");
    hasher.update(b"bc");
    assert_eq!(hasher.finish(), content_hash(b"abc"));
    assert_eq!(ContentHasher::default().finish(), content_hash(b""));
}

#[test]
fn scopes_round_trip_through_the_outbox() {
    let master = BlobScope::from_outbox_str(&BlobScope::Master.to_outbox_str()).unwrap();
    assert!(matches!(master, BlobScope::Master));
    let derived = BlobScope::Derived("release:a".to_string());
    let read = BlobScope::from_outbox_str(&derived.to_outbox_str()).unwrap();
    assert!(read.same(&derived));
    assert!(!read.same(&BlobScope::Master));
    assert!(BlobScope::from_outbox_str("elsewhere").is_none());
}

#[test]
fn transfer_limits_are_at_least_one() {
    assert!(TransferLimit::new(0).is_none());
    assert_eq!(TransferLimit::new(3).unwrap().get(), 3);
    let serial = TransferLimits::serial();
    assert_eq!((serial.uploads.get(), serial.downloads.get()), (1, 1));
}

#[test]
fn hashes_round_trip_through_their_text() {
    let hash = ObjectHash::digest(b"abc");
    assert_eq!(hash.to_text(), content_hash(b"abc"));
    assert!(ObjectHash::parse(&hash.to_text()).unwrap().same(&hash));
    assert!(ObjectHash::parse(&hash.to_text().to_uppercase()).is_err());
    assert!(ObjectHash::parse("00").is_err());
    assert!(!ObjectHash::parse("zz").unwrap_err().message().is_empty());
    assert_eq!(ObjectHash::from_bytes([0xab; 32]).to_text(), "ab".repeat(32));

    let fingerprint = KeyFingerprint::from_bytes([0x0f; 8]);
    assert_eq!(fingerprint.to_text(), "0f".repeat(8));
    assert!(KeyFingerprint::parse(&fingerprint.to_text()).unwrap().same(&fingerprint));
    assert!(KeyFingerprint::parse("0f").is_none());

    let circle = CircleId::from_bytes([0x10; 16]);
    assert!(CircleId::parse(&circle.to_text()).unwrap().same(&circle));
    assert!(CircleId::parse("not a circle").is_none());
}

#[test]
fn hexadecimal_text_is_lowercase_and_even() {
    assert_eq!(decode_hex("00ff7a"), Some(vec![0, 255, 122]));
    assert_eq!(decode_hex(""), Some(vec![]));
    assert_eq!(decode_hex("0"), None);
    assert_eq!(decode_hex("0G"), None);
    assert_eq!(decode_hex("AB"), None);
}

#[test]
fn clock_stamps_have_one_shape() {
    assert!(timestamp_is_well_formed("0000000001000-0000-device"));
    assert!(timestamp_is_well_formed("0000000001000-0000-a-b"));
    assert!(!timestamp_is_well_formed("0000000001000-0000-"));
    assert!(!timestamp_is_well_formed("1000-0000-device"));
    assert!(!timestamp_is_well_formed("000000000100x-0000-device"));
    assert!(!timestamp_is_well_formed("0000000001000_0000-device"));
}

#[test]
fn numbers_are_written_in_decimal() {
    assert_eq!(decimal_text(0), "0");
    assert_eq!(decimal_text(1024), "1024");
    assert_eq!(decimal_text(u64::MAX), "18446744073709551615");
    assert_eq!(signed_decimal_text(-7), "-7");
    assert_eq!(signed_decimal_text(i64::MIN), "-9223372036854775808");
    assert_eq!(signed_decimal_text(42), "42");
}

#[test]
fn identifiers_are_quoted() {
    assert_eq!(quote_ident("notes"), "\"notes\"");
    assert_eq!(quote_ident("a\"b"), "\"a\"\"b\"");
}

#[test]
fn instants_are_nanoseconds_apart() {
    let earlier = Instant { seconds: 10, nanos: 500_000_000 };
    let later = Instant { seconds: 12, nanos: 250_000_000 };
    assert_eq!(later.nanos_since(&earlier), 1_750_000_000);
    assert_eq!(earlier.nanos_since(&later), -1_750_000_000);
}

#[test]
fn storage_errors_say_what_they_are() {
    assert!(StorageError::Transport("down".to_string()).is_transport());
    assert!(!StorageError::NotFound("k".to_string()).is_transport());
    assert_eq!(StorageError::NotFound("k".to_string()).message(), "not found: k");
    assert_eq!(StorageError::Transport("down".to_string()).message(), "transport: down");
    assert_eq!(StorageError::Other("no".to_string()).message(), "no");
}

#[test]
fn a_calendar_holds_leap_seconds_only_at_the_end_of_a_minute() {
    assert!(Instant { seconds: 59, nanos: 1_999_999_999 }.is_representable());
    assert!(!Instant { seconds: 58, nanos: 1_000_000_000 }.is_representable());
    assert!(!Instant { seconds: 59, nanos: 2_000_000_000 }.is_representable());
    assert!(Instant { seconds: -1, nanos: 1_000_000_000 }.is_representable());
    for edge in [-8_334_601_228_800, 8_210_266_876_799] {
        assert!(Instant { seconds: edge, nanos: 0 }.is_representable());
        assert!(chrono::DateTime::from_timestamp(edge, 0).is_some());
    }
    for beyond in [-8_334_601_228_801, 8_210_266_876_800, i64::MIN, i64::MAX] {
        assert!(!Instant { seconds: beyond, nanos: 0 }.is_representable());
        assert!(chrono::DateTime::from_timestamp(beyond, 0).is_none());
    }
}
