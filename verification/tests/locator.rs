use coven_core::blob::locator::{
    Audience, BlobLocator, BlobLocatorError, ExactObjectRef, RemoteAudience, StoredBlobRef,
};
use coven_core::blob::BlobScope;
use coven_core::digest::{CircleId, KeyFingerprint, ObjectHash};

fn hash(bytes: &[u8]) -> ObjectHash {
    ObjectHash::digest(bytes)
}

fn text(value: &str) -> String {
    value.to_string()
}

fn opaque(namespace: &str, uploader: String) -> Result<BlobLocator, BlobLocatorError> {
    BlobLocator::opaque(
        text(namespace),
        text("a1b2-blob"),
        uploader,
        RemoteAudience::Store,
        BlobScope::Master,
        KeyFingerprint::from_bytes([4; 8]),
        1,
        hash(b"x"),
    )
}

fn browsable(cloud_path: &str) -> Result<BlobLocator, BlobLocatorError> {
    BlobLocator::browsable(
        text("audio"),
        text("abcd-track"),
        "22".repeat(32),
        text(cloud_path),
        1,
        hash(b"x"),
    )
}

fn with_member(bytes: &[u8], name: &str, value: serde_json::Value) -> Vec<u8> {
    let mut read: serde_json::Value = serde_json::from_slice(bytes).unwrap();
    read[name] = value;
    serde_json::to_vec(&read).unwrap()
}

#[test]
fn opaque_locator_round_trips_canonical_bytes_and_path() {
    let locator = BlobLocator::opaque(
        text("covers"),
        text("a1b2-blob"),
        "11".repeat(32),
        RemoteAudience::Circle(CircleId::from_bytes([3; 16])),
        BlobScope::Derived("release-a".to_string()),
        KeyFingerprint::from_bytes([4; 8]),
        27,
        hash(b"cover"),
    )
    .expect("build locator");

    assert_eq!(
        locator.semantic_key(),
        format!(
            "covers/opaque/{}/0404040404040404/a1/b2/a1b2-blob",
            "11".repeat(32)
        )
    );
    assert!(BlobLocator::parse(&locator.to_bytes()).unwrap().same(&locator));
    assert_eq!(
        String::from_utf8(locator.to_bytes()).unwrap(),
        format!(
            "{{\"protection\":\"opaque\",\"namespace\":\"covers\",\"blob_id\":\"a1b2-blob\",\"uploader\":\"{}\",\"audience\":{{\"circle\":\"{}\"}},\"scope\":{{\"Derived\":\"release-a\"}},\"key_fingerprint\":\"0404040404040404\",\"semantic_key\":\"covers/opaque/{}/0404040404040404/a1/b2/a1b2-blob\",\"plaintext_size\":27,\"plaintext_hash\":\"{}\"}}",
            "11".repeat(32),
            CircleId::from_bytes([3; 16]).to_text(),
            "11".repeat(32),
            hash(b"cover").to_text(),
        )
    );
}

#[test]
fn browsable_locator_round_trips_canonical_bytes_and_version_path() {
    let locator = BlobLocator::browsable(
        text("audio"),
        text("abcd-track"),
        "22".repeat(32),
        text("Artist/Album/01 Track.flac"),
        91,
        hash(b"track"),
    )
    .expect("build locator");

    assert_eq!(
        locator.semantic_key(),
        format!(
            "audio/readable/Artist/Album/01 Track.flac/.coven-versions/{}/abcd-track/{}",
            "22".repeat(32),
            hash(b"track").to_text()
        )
    );
    assert!(BlobLocator::parse(&locator.to_bytes()).unwrap().same(&locator));
}

#[test]
fn locator_rejects_unsafe_reserved_and_noncanonical_paths() {
    assert!(matches!(
        opaque("../covers", "11".repeat(32)),
        Err(BlobLocatorError::UnsafeNamespace { .. })
    ));
    assert!(matches!(
        browsable("Artist/.coven-versions/track.flac"),
        Err(BlobLocatorError::ReservedCloudPath { .. })
    ));

    for cloud_path in [
        "C:/Music/track.flac",
        "Artist/Album/C:track.flac",
        "Artist/../track.flac",
        "Artist/./track.flac",
        "Artist//track.flac",
        "Artist/track.flac/",
        "Artist\\track.flac",
        "Artist/track\0.flac",
    ] {
        assert!(matches!(
            browsable(cloud_path),
            Err(BlobLocatorError::UnsafeCloudPath { .. })
        ));
    }

    let locator = opaque("covers", "11".repeat(32)).unwrap();
    let relocated = with_member(
        &locator.to_bytes(),
        "semantic_key",
        serde_json::Value::from("covers/opaque/relocated"),
    );
    assert!(matches!(
        BlobLocator::parse(&relocated),
        Err(BlobLocatorError::SemanticKeyMismatch { .. })
            | Err(BlobLocatorError::NonCanonicalEncoding)
    ));
}

#[test]
fn locator_rejects_unknown_shape_and_noncanonical_bytes() {
    let locator = opaque("covers", "11".repeat(32)).unwrap();
    let bytes = locator.to_bytes();

    let unknown_field = with_member(&bytes, "unknown", serde_json::Value::from(true));
    assert!(matches!(
        BlobLocator::parse(&unknown_field),
        Err(BlobLocatorError::Malformed(_))
    ));

    let unknown_variant = with_member(&bytes, "protection", serde_json::Value::from("unknown"));
    assert!(matches!(
        BlobLocator::parse(&unknown_variant),
        Err(BlobLocatorError::Malformed(_))
    ));

    let mut noncanonical = bytes.clone();
    noncanonical.push(b'\n');
    assert!(matches!(
        BlobLocator::parse(&noncanonical),
        Err(BlobLocatorError::NonCanonicalEncoding)
    ));
}

#[test]
fn locator_hash_is_the_digest_of_canonical_bytes() {
    let locator = BlobLocator::browsable(
        text("audio"),
        text("abcd-track"),
        "22".repeat(32),
        text("Artist/Album/track.flac"),
        91,
        hash(b"track"),
    )
    .unwrap();

    assert_eq!(locator.locator_hash(), hash(&locator.to_bytes()));
}

#[test]
fn locator_rejects_uppercase_uploader_keys() {
    assert!(matches!(
        opaque("covers", "AA".repeat(32)),
        Err(BlobLocatorError::UnsafeUploader { .. })
    ));

    let locator = opaque("covers", "11".repeat(32)).unwrap();
    let changed = with_member(
        &locator.to_bytes(),
        "uploader",
        serde_json::Value::from("AA".repeat(32)),
    );
    assert!(matches!(
        BlobLocator::parse(&changed),
        Err(BlobLocatorError::UnsafeUploader { .. })
    ));
}

#[test]
fn local_audience_has_no_locator_variant() {
    assert!(RemoteAudience::try_from(Audience::Local).is_err());
    assert_eq!(
        RemoteAudience::try_from(Audience::Store).unwrap(),
        RemoteAudience::Store
    );
}

#[test]
fn a_circle_audience_is_kept() {
    let circle = CircleId::from_bytes([9; 16]);
    assert_eq!(
        RemoteAudience::try_from(Audience::Circle(circle)).unwrap(),
        RemoteAudience::Circle(circle)
    );
    assert_eq!(
        RemoteAudience::try_from(Audience::Local).unwrap_err().message(),
        "Local audience has no blob locator"
    );
}

#[test]
fn a_locator_answers_for_its_values() {
    let sealed = opaque("covers", "11".repeat(32)).unwrap();
    assert!(sealed.is_sealed());
    assert_eq!(sealed.namespace(), "covers");
    assert_eq!(sealed.blob_id(), "a1b2-blob");
    assert_eq!(sealed.uploader(), "11".repeat(32));
    assert_eq!(sealed.audience(), RemoteAudience::Store);
    assert_eq!(sealed.plaintext_size(), 1);
    assert_eq!(sealed.plaintext_hash(), hash(b"x"));
    assert!(matches!(sealed.scope(), Some(BlobScope::Master)));
    assert_eq!(sealed.key_fingerprint().unwrap().to_text(), "0404040404040404");
    assert_eq!(sealed.cloud_path(), None);
    assert!(sealed.validate().is_ok());

    let readable = browsable("Artist/track.flac").unwrap();
    assert!(!readable.is_sealed());
    assert_eq!(readable.audience(), RemoteAudience::Store);
    assert_eq!(readable.cloud_path(), Some("Artist/track.flac"));
    assert!(readable.scope().is_none());
    assert!(readable.key_fingerprint().is_none());
    assert_ne!(sealed.storage_suffix(), readable.storage_suffix());
}

#[test]
fn each_fault_of_a_locator_is_said_in_words() {
    assert_eq!(
        opaque("../covers", "11".repeat(32)).unwrap_err().message(),
        "unsafe blob namespace \"../covers\": path token holds a separator or a NUL"
    );
    let short_id = BlobLocator::opaque(
        text("covers"),
        text("ab"),
        "11".repeat(32),
        RemoteAudience::Store,
        BlobScope::Master,
        KeyFingerprint::from_bytes([4; 8]),
        1,
        hash(b"x"),
    );
    assert_eq!(
        short_id.unwrap_err().message(),
        "unsafe blob id \"ab\": path token is too short to partition"
    );
    assert!(opaque("covers", text("AA"))
        .unwrap_err()
        .message()
        .starts_with("unsafe blob uploader \"AA\": "));
    assert_eq!(
        browsable("a//b").unwrap_err().message(),
        "unsafe readable blob path \"a//b\": path token is empty"
    );
    assert_eq!(
        browsable("a/.coven-versions/b").unwrap_err().message(),
        "readable blob path uses reserved segment: \"a/.coven-versions/b\""
    );
    assert!(BlobLocator::parse(b"not json")
        .unwrap_err()
        .message()
        .starts_with("malformed blob locator: "));
    let mut padded = opaque("covers", "11".repeat(32)).unwrap().to_bytes();
    padded.push(b' ');
    assert_eq!(
        BlobLocator::parse(&padded).unwrap_err().message(),
        "blob locator bytes are not canonical"
    );
}

#[test]
fn a_relocated_key_is_a_mismatch() {
    let locator = opaque("covers", "11".repeat(32)).unwrap();
    let written = String::from_utf8(locator.to_bytes()).unwrap();
    let moved = written.replace("covers/opaque/", "covers/elsewhere/");
    match BlobLocator::parse(moved.as_bytes()) {
        Err(BlobLocatorError::SemanticKeyMismatch { expected, actual }) => {
            assert_eq!(expected, locator.semantic_key());
            assert!(actual.starts_with("covers/elsewhere/"));
        }
        other => panic!("{other:?}"),
    }
}

#[test]
fn locators_with_other_values_have_other_hashes() {
    let one = opaque("covers", "11".repeat(32)).unwrap();
    let other = opaque("covers", "33".repeat(32)).unwrap();
    assert!(!one.same(&other));
    assert_ne!(one.locator_hash(), other.locator_hash());
    assert_eq!(one.locator_hash(), one.clone().locator_hash());
}

#[test]
fn quotes_in_a_readable_path_survive_the_round_trip() {
    let locator = browsable("Artist/\"Live\" \u{e9}.flac").unwrap();
    let parsed = BlobLocator::parse(&locator.to_bytes()).unwrap();
    assert_eq!(parsed.cloud_path(), Some("Artist/\"Live\" \u{e9}.flac"));
    assert!(parsed.same(&locator));
}

#[test]
fn a_stored_reference_is_written_with_its_object() {
    let locator = opaque("covers", "11".repeat(32)).unwrap();
    let stored = StoredBlobRef {
        locator: locator.clone(),
        object: ExactObjectRef {
            logical_key: text("covers/key"),
            stored_size: 40,
            object_id: hash(b"object"),
        },
    };
    assert_eq!(
        String::from_utf8(stored.to_json()).unwrap(),
        format!(
            "{{\"locator\":{},\"object\":{{\"logical_key\":\"covers/key\",\"stored_size\":40,\"object_id\":\"{}\"}}}}",
            String::from_utf8(locator.to_bytes()).unwrap(),
            hash(b"object").to_text()
        )
    );
    assert!(stored.same(&stored.clone()));
}

#[test]
fn a_key_tells_the_slots_of_blobs_apart() {
    let keys = vec![
        opaque("photos", "11".repeat(32)).unwrap(),
        opaque("covers", "11".repeat(32)).unwrap(),
        opaque("photos", "22".repeat(32)).unwrap(),
        browsable("a/b").unwrap(),
        browsable("a").unwrap(),
        browsable("a/b/c").unwrap(),
    ];
    for (i, one) in keys.iter().enumerate() {
        for (j, other) in keys.iter().enumerate() {
            assert_eq!(one.semantic_key() == other.semantic_key(), i == j);
        }
    }
    let other_size = BlobLocator::opaque(
        text("photos"),
        text("a1b2-blob"),
        "11".repeat(32),
        RemoteAudience::Store,
        BlobScope::Master,
        KeyFingerprint::from_bytes([4; 8]),
        2,
        hash(b"y"),
    )
    .unwrap();
    assert_eq!(other_size.semantic_key(), keys[0].semantic_key());
    assert_ne!(other_size.to_bytes(), keys[0].to_bytes());
}

#[test]
fn a_member_that_is_written_twice_is_malformed() {
    let malformed = |bytes: &[u8]| match BlobLocator::parse(bytes) {
        Err(BlobLocatorError::Malformed(reason)) => reason,
        other => panic!("{other:?}"),
    };
    let plain = String::from_utf8(opaque("photos", "11".repeat(32)).unwrap().to_bytes()).unwrap();
    let doubled = plain.replacen(
        "\"plaintext_size\":1",
        "\"plaintext_size\":1,\"plaintext_size\":1",
        1,
    );
    assert_eq!(malformed(doubled.as_bytes()), "blob locator writes a member twice");
    let circle = BlobLocator::opaque(
        text("photos"),
        text("a1b2-blob"),
        "11".repeat(32),
        RemoteAudience::Circle(CircleId::from_bytes([3; 16])),
        BlobScope::Derived(text("a:\"b\\")),
        KeyFingerprint::from_bytes([4; 8]),
        1,
        hash(b"x"),
    )
    .unwrap();
    let plain = String::from_utf8(circle.to_bytes()).unwrap();
    assert!(BlobLocator::parse(plain.as_bytes()).unwrap().same(&circle));
    let id = "03".repeat(16);
    let inside = plain.replacen(
        &format!("{{\"circle\":\"{id}\"}}"),
        &format!("{{\"circle\":\"{id}\",\"circle\":\"{id}\"}}"),
        1,
    );
    assert_ne!(inside, plain);
    assert_eq!(malformed(inside.as_bytes()), "blob locator writes a member twice");
    assert!(matches!(
        BlobLocator::parse(plain.replacen(",", " ,", 1).as_bytes()),
        Err(BlobLocatorError::NonCanonicalEncoding)
    ));
}
