use coven_core::blob::delete::{
    existing_tombstone_state, older_than_grace, parse_tombstone_key, stored_cloud_key,
    tombstone_key, tombstone_object_id, tombstone_signing_payload, BlobTombstoneJson,
    ExistingTombstone, GcError, GcReply, GcStep, InvalidTombstone, Membership, SignatureCheck,
    TombstoneDrain, TombstoneDrainError, TombstoneGc, TombstoneRead, TombstoneReply, TombstoneStep,
    TombstoneWriteError, BLOB_TOMBSTONE_GRACE,
};
use coven_core::blob::locator::{BlobLocator, ExactObjectRef, RemoteAudience, StoredBlobRef};
use coven_core::blob::BlobScope;
use coven_core::clock::Instant;
use coven_core::digest::{KeyFingerprint, ObjectHash};
use coven_core::outbox::{OutboxEntry, OutboxOperation, StoredBlobReferenceState};
use coven_core::storage::StorageError;
use std::collections::VecDeque;

const T0: &str = "2024-06-01T00:00:00Z";
const T0_SECONDS: i64 = 1_717_200_000;

fn stored(id: &str) -> StoredBlobRef {
    let locator = BlobLocator::opaque(
        "photos".to_string(),
        id.to_string(),
        "11".repeat(32),
        RemoteAudience::Store,
        BlobScope::Master,
        KeyFingerprint::from_bytes([4; 8]),
        3,
        ObjectHash::digest(b"abc"),
    )
    .unwrap();
    StoredBlobRef {
        object: ExactObjectRef {
            logical_key: locator.semantic_key().to_string(),
            stored_size: 19,
            object_id: ObjectHash::digest(id.as_bytes()),
        },
        locator,
    }
}

fn at(seconds: i64) -> Instant {
    Instant { seconds, nanos: 0 }
}

fn tombstone(id: &str) -> BlobTombstoneJson {
    BlobTombstoneJson::signed(stored(id), T0.to_string(), &[0xaa; 32], &[0xbb; 64])
}

fn checked(tombstone: &BlobTombstoneJson, store_id: &str) -> SignatureCheck {
    SignatureCheck {
        pubkey: tombstone.author_pubkey.clone(),
        signature: tombstone.signature.clone(),
        payload: tombstone_signing_payload(store_id, &tombstone.stored, &tombstone.deleted_at),
        valid: true,
    }
}

fn good_read(id: &str) -> TombstoneRead {
    let tombstone = tombstone(id);
    let check = checked(&tombstone, "lib");
    TombstoneRead::Read { tombstone, check }
}

#[test]
fn a_tombstone_key_gives_its_object_back() {
    let blob = stored("photoaaa");
    let key = tombstone_key(&blob, ".enc");
    assert_eq!(
        key,
        format!("blob_tombstones/{}.enc", tombstone_object_id(&blob).to_text())
    );
    assert!(parse_tombstone_key(&key, ".enc").unwrap().same(&tombstone_object_id(&blob)));
    assert!(parse_tombstone_key(&key, ".other").is_none());
    assert!(parse_tombstone_key("blob_tombstones/short.enc", ".enc").is_none());
    assert!(parse_tombstone_key("elsewhere", "").is_none());
    assert_ne!(tombstone_key(&blob, ""), tombstone_key(&stored("photobbb"), ""));
    assert_eq!(stored_cloud_key(&blob), blob.object.logical_key);
}

#[test]
fn a_tombstone_is_signed_in_lowercase_hexadecimal() {
    let signed = tombstone("photoaaa");
    assert_eq!(signed.author_pubkey, "aa".repeat(32));
    assert_eq!(signed.signature, "bb".repeat(64));
    assert_eq!(signed.deleted_at, T0);
}

#[test]
fn a_signature_binds_the_store_the_blob_and_the_time() {
    let signed = tombstone("photoaaa");
    assert!(signed.verify("lib", &checked(&signed, "lib")));
    assert!(!signed.verify("other", &checked(&signed, "lib")));
    let mut later = tombstone("photoaaa");
    later.deleted_at = "2025-06-01T00:00:00Z".to_string();
    assert!(!later.verify("lib", &checked(&signed, "lib")));
    let mut moved = tombstone("photoaaa");
    moved.stored = stored("photobbb");
    assert!(!moved.verify("lib", &checked(&signed, "lib")));
    let mut larger = tombstone("photoaaa");
    larger.stored.object.stored_size = 20;
    assert!(!larger.verify("lib", &checked(&signed, "lib")));
    let mut renamed = tombstone("photoaaa");
    renamed.stored.object.logical_key.push('x');
    assert!(!renamed.verify("lib", &checked(&signed, "lib")));
    let mut refused = checked(&signed, "lib");
    refused.valid = false;
    assert!(!signed.verify("lib", &refused));
    assert_ne!(
        tombstone_signing_payload("lib", &stored("photoaaa"), T0),
        tombstone_signing_payload("lib", &stored("photobbb"), T0)
    );
}

#[test]
fn an_existing_tombstone_is_valid_absent_or_invalid() {
    let expected = stored("photoaaa");
    let state = |read| existing_tombstone_state(read, "lib", &expected);
    assert!(matches!(state(good_read("photoaaa")), Ok(ExistingTombstone::Valid)));
    assert!(matches!(
        state(TombstoneRead::NotFound("k".to_string())),
        Ok(ExistingTombstone::Absent)
    ));
    assert!(state(TombstoneRead::Failed("down".to_string())).is_err());
    assert!(matches!(
        state(TombstoneRead::Unopened("key".to_string())),
        Ok(ExistingTombstone::Invalid(InvalidTombstone::Unopened(_)))
    ));
    assert!(matches!(
        state(TombstoneRead::Unparsed("garbage".to_string())),
        Ok(ExistingTombstone::Invalid(InvalidTombstone::Unparsed(_)))
    ));
    assert!(matches!(
        state(good_read("photobbb")),
        Ok(ExistingTombstone::Invalid(InvalidTombstone::OtherBlob))
    ));
    let forged = tombstone("photoaaa");
    let mut check = checked(&forged, "lib");
    check.valid = false;
    assert!(matches!(
        state(TombstoneRead::Read { tombstone: forged, check }),
        Ok(ExistingTombstone::Invalid(InvalidTombstone::BadSignature))
    ));
}

fn delete_entry(id: i64, blob_id: &str) -> OutboxEntry {
    OutboxEntry {
        id,
        operation: OutboxOperation::Delete { stored: stored(blob_id) },
        attempt_count: 0,
        last_attempt_at: None,
    }
}

fn drain(entries: Vec<OutboxEntry>, seconds: i64) -> TombstoneDrain {
    TombstoneDrain::start("lib".to_string(), at(seconds), Ok(VecDeque::from(entries)))
}

#[test]
fn a_queued_delete_becomes_a_tombstone_and_leaves_the_queue() {
    let work = drain(vec![delete_entry(1, "photoaaa")], T0_SECONDS);
    assert!(matches!(work.step, TombstoneStep::ReadTombstone { .. }));
    let work = work.next(TombstoneReply::Read(TombstoneRead::NotFound("k".to_string())));
    assert!(matches!(work.step, TombstoneStep::WriteTombstone { .. }));
    let work = work.next(TombstoneReply::Written(Ok(())));
    assert!(matches!(work.step, TombstoneStep::RemoveEntry { .. }));
    assert_eq!(work.written, 1);
    let work = work.next(TombstoneReply::Local(Ok(())));
    assert!(matches!(work.step, TombstoneStep::Done));
}

#[test]
fn enqueued_delete_becomes_a_tombstone_and_clears_the_outbox() {
    let work = drain(vec![delete_entry(1, "queued-delete")], T0_SECONDS + 9 * 86_400)
        .next(TombstoneReply::Read(TombstoneRead::NotFound("k".to_string())));
    match &work.step {
        TombstoneStep::WriteTombstone { job, deleted_at } => {
            assert!(job.stored.same(&stored("queued-delete")));
            assert_eq!(deleted_at, "2024-06-10T00:00:00+00:00");
        }
        other => panic!("{other:?}"),
    }
    let work = work.next(TombstoneReply::Written(Ok(()))).next(TombstoneReply::Local(Ok(())));
    assert!(matches!(work.step, TombstoneStep::Done));
    assert_eq!(work.written, 1);
    assert!(work.pending.is_empty());
}

#[test]
fn a_valid_tombstone_is_kept_and_an_invalid_one_replaced() {
    let work = drain(vec![delete_entry(1, "photoaaa")], T0_SECONDS);
    let kept = work.next(TombstoneReply::Read(good_read("photoaaa")));
    assert!(matches!(kept.step, TombstoneStep::RemoveEntry { .. }));
    assert_eq!(kept.written, 0);
    let work = drain(vec![delete_entry(1, "photoaaa")], T0_SECONDS);
    let replaced = work.next(TombstoneReply::Read(TombstoneRead::Unparsed("junk".to_string())));
    assert!(matches!(replaced.step, TombstoneStep::WriteTombstone { .. }));
}

#[test]
fn a_failed_delete_backs_off_and_stays_queued() {
    let work = drain(vec![delete_entry(1, "photoaaa")], T0_SECONDS);
    let work = work.next(TombstoneReply::Read(TombstoneRead::Failed("down".to_string())));
    match &work.step {
        TombstoneStep::RecordFailure { job, error, attempted_at } => {
            assert_eq!(job.id, 1);
            assert_eq!(attempted_at, "2024-06-01T00:00:00+00:00");
            assert!(matches!(error, TombstoneDrainError::Validation { .. }));
            assert!(error.message().contains("down"));
        }
        other => panic!("{other:?}"),
    }
    let work = work.next(TombstoneReply::Local(Ok(())));
    assert!(matches!(
        work.step,
        TombstoneStep::Failed { error: TombstoneDrainError::Validation { .. } }
    ));

    let work = drain(vec![delete_entry(1, "photoaaa")], T0_SECONDS)
        .next(TombstoneReply::Read(TombstoneRead::NotFound("k".to_string())))
        .next(TombstoneReply::Written(Err(TombstoneWriteError::Write("full".to_string()))));
    match &work.step {
        TombstoneStep::RecordFailure { error, attempted_at, .. } => {
            assert_eq!(error.record_message(), "tombstone write failed: full");
            assert_eq!(
                error.message(),
                format!(
                    "Tombstone write failed for {}: tombstone write failed: full",
                    stored_cloud_key(&stored("photoaaa"))
                )
            );
            assert_eq!(attempted_at, "2024-06-01T00:00:00+00:00");
        }
        other => panic!("{other:?}"),
    }
    assert_eq!(
        TombstoneWriteError::Serialize("depth".to_string()).message(),
        "tombstone serialization failed: depth"
    );
    assert_eq!(TombstoneWriteError::Rotation("adopt first".to_string()).message(), "adopt first");
    let work = work.next(TombstoneReply::Local(Err("locked".to_string())));
    assert!(matches!(
        work.step,
        TombstoneStep::Failed { error: TombstoneDrainError::Record { id: 1, .. } }
    ));

    let mut waiting = delete_entry(1, "photoaaa");
    waiting.attempt_count = 1;
    waiting.last_attempt_at = Some(T0.to_string());
    assert!(matches!(
        drain(vec![waiting.clone()], T0_SECONDS + 10).step,
        TombstoneStep::Done
    ));
    assert!(matches!(
        drain(vec![waiting], T0_SECONDS + 31).step,
        TombstoneStep::ReadTombstone { .. }
    ));
}

#[test]
fn a_drain_says_why_it_could_not_go_on() {
    let listed = TombstoneDrain::start("lib".to_string(), at(0), Err("locked".to_string()));
    assert!(matches!(
        listed.step,
        TombstoneStep::Failed { error: TombstoneDrainError::List(_) }
    ));
    let work = drain(vec![delete_entry(7, "photoaaa")], T0_SECONDS)
        .next(TombstoneReply::Read(good_read("photoaaa")))
        .next(TombstoneReply::Local(Err("locked".to_string())));
    assert!(matches!(
        work.step,
        TombstoneStep::Failed { error: TombstoneDrainError::Remove { id: 7, .. } }
    ));
}

fn membership() -> Membership {
    let me = "11".repeat(32);
    Membership {
        self_pubkey: me.clone(),
        is_owner: false,
        writers: vec!["aa".repeat(32)],
        uploaders: vec![(me.clone(), me)],
    }
}

fn gc_with(membership: Membership, seconds: i64, keys: Vec<String>) -> TombstoneGc {
    TombstoneGc::start(
        "lib".to_string(),
        ".enc".to_string(),
        membership,
        at(seconds),
        BLOB_TOMBSTONE_GRACE,
        Ok(VecDeque::from(keys)),
    )
}

fn gc(seconds: i64) -> TombstoneGc {
    gc_with(membership(), seconds, vec![tombstone_key(&stored("photoaaa"), ".enc")])
}

const PAST: i64 = T0_SECONDS + 7 * 86_400 + 1;

#[test]
fn a_condemned_blob_is_deleted_before_its_tombstone() {
    let work = gc(PAST);
    assert!(matches!(work.step, GcStep::ReadTombstone { .. }));
    let work = work.next(GcReply::Read(good_read("photoaaa")));
    assert!(matches!(work.step, GcStep::CheckReferences { .. }));
    let work = work.next(GcReply::References(Ok(StoredBlobReferenceState::NotLiveRemote)));
    assert!(matches!(work.step, GcStep::CheckTombstone { .. }));
    let work = work.next(GcReply::Exists(Ok(true)));
    assert!(matches!(work.step, GcStep::CheckBlob { .. }));
    let work = work.next(GcReply::Verified(Ok(())));
    assert!(matches!(work.step, GcStep::DeleteBlob { .. }));
    let work = work.next(GcReply::BlobDeleted(Ok(())));
    assert!(matches!(work.step, GcStep::DeleteTombstone { .. }));
    let work = work.next(GcReply::TombstoneDeleted(Ok(())));
    assert!(matches!(work.step, GcStep::Done));
    assert_eq!(work.deleted, 1);
}

#[test]
fn a_tombstone_inside_its_grace_is_left() {
    let work = gc(T0_SECONDS + 86_400).next(GcReply::Read(good_read("photoaaa")));
    assert!(matches!(work.step, GcStep::Done));
    assert_eq!(work.deleted, 0);
    assert!(older_than_grace(&at(0), &at(7 * 86_400 + 1), BLOB_TOMBSTONE_GRACE));
    assert!(!older_than_grace(&at(0), &at(3600), 3_600_000_000_001));
    assert!(older_than_grace(&at(0), &at(3601), 3_600_000_000_000));
}

#[test]
fn a_live_reference_cancels_the_tombstone() {
    let work = gc(PAST)
        .next(GcReply::Read(good_read("photoaaa")))
        .next(GcReply::References(Ok(StoredBlobReferenceState::LiveRemote)));
    assert!(matches!(work.step, GcStep::CancelTombstone { .. }));
    let work = work.next(GcReply::TombstoneDeleted(Ok(())));
    assert!(matches!(work.step, GcStep::Done));
    assert_eq!(work.deleted, 0);
}

#[test]
fn tombstones_that_may_not_be_acted_on_are_left() {
    let forged = tombstone("photoaaa");
    let mut check = checked(&forged, "lib");
    check.valid = false;
    let bad = gc(PAST).next(GcReply::Read(TombstoneRead::Read { tombstone: forged, check }));
    assert!(matches!(bad.step, GcStep::Done));

    let other = tombstone("photoaaa");
    let check = checked(&other, "elsewhere");
    let foreign = gc(PAST).next(GcReply::Read(TombstoneRead::Read { tombstone: other, check }));
    assert!(matches!(foreign.step, GcStep::Done));

    let mut members = membership();
    members.writers = vec![];
    let outsider = gc_with(members, PAST, vec![tombstone_key(&stored("photoaaa"), ".enc")])
        .next(GcReply::Read(good_read("photoaaa")));
    assert!(matches!(outsider.step, GcStep::Done));

    let garbage = gc(PAST).next(GcReply::Read(TombstoneRead::Unparsed("junk".to_string())));
    assert!(matches!(garbage.step, GcStep::Done));
    let misplaced = gc(PAST).next(GcReply::Read(good_read("photobbb")));
    assert!(matches!(misplaced.step, GcStep::Done));
    let unknown = gc_with(membership(), PAST, vec!["blob_tombstones/odd".to_string()]);
    assert!(matches!(unknown.step, GcStep::Done));
}

#[test]
fn a_member_reclaims_its_own_blobs_and_an_owner_everyones() {
    let mut foreign = membership();
    foreign.self_pubkey = "22".repeat(32);
    let keys = || vec![tombstone_key(&stored("photoaaa"), ".enc")];
    let member = gc_with(foreign, PAST, keys()).next(GcReply::Read(good_read("photoaaa")));
    assert!(matches!(
        member
            .next(GcReply::References(Ok(StoredBlobReferenceState::NotLiveRemote)))
            .step,
        GcStep::Done
    ));
    let mut owner = membership();
    owner.self_pubkey = "22".repeat(32);
    owner.is_owner = true;
    let owner = gc_with(owner, PAST, keys())
        .next(GcReply::Read(good_read("photoaaa")))
        .next(GcReply::References(Ok(StoredBlobReferenceState::NotLiveRemote)));
    assert!(matches!(owner.step, GcStep::CheckTombstone { .. }));
}

#[test]
fn a_tombstone_that_went_meanwhile_spares_the_blob() {
    let work = gc(PAST)
        .next(GcReply::Read(good_read("photoaaa")))
        .next(GcReply::References(Ok(StoredBlobReferenceState::NotLiveRemote)))
        .next(GcReply::Exists(Ok(false)));
    assert!(matches!(work.step, GcStep::Done));
    assert_eq!(work.deleted, 0);
}

#[test]
fn a_failed_deletion_keeps_the_tombstone() {
    let work = gc(PAST)
        .next(GcReply::Read(good_read("photoaaa")))
        .next(GcReply::References(Ok(StoredBlobReferenceState::NotLiveRemote)))
        .next(GcReply::Exists(Ok(true)))
        .next(GcReply::Verified(Ok(())))
        .next(GcReply::BlobDeleted(Err(StorageError::Other("denied".to_string()))));
    match work.step {
        GcStep::Failed { error } => {
            assert!(matches!(error, GcError::DeleteBlob { .. }));
            assert!(error.message().contains("denied"));
        }
        other => panic!("{other:?}"),
    }
}

#[test]
fn a_pass_says_why_it_could_not_go_on() {
    let failed = |work: TombstoneGc| match work.step {
        GcStep::Failed { error } => error,
        other => panic!("{other:?}"),
    };
    let listed = TombstoneGc::start(
        "lib".to_string(),
        String::new(),
        membership(),
        at(PAST),
        BLOB_TOMBSTONE_GRACE,
        Err("down".to_string()),
    );
    assert!(matches!(failed(listed), GcError::List(_)));
    assert!(matches!(
        failed(gc(PAST).next(GcReply::Read(TombstoneRead::Failed("down".to_string())))),
        GcError::Read { .. }
    ));
    let read = || gc(PAST).next(GcReply::Read(good_read("photoaaa")));
    assert!(matches!(
        failed(read().next(GcReply::References(Err("locked".to_string())))),
        GcError::References(_)
    ));
    assert!(matches!(
        failed(read().next(GcReply::References(Ok(StoredBlobReferenceState::Unresolved)))),
        GcError::UnresolvedLocality { .. }
    ));
    let live = || read().next(GcReply::References(Ok(StoredBlobReferenceState::LiveRemote)));
    assert!(matches!(
        failed(live().next(GcReply::TombstoneDeleted(Err("down".to_string())))),
        GcError::Cancel { .. }
    ));
    let clear = || read().next(GcReply::References(Ok(StoredBlobReferenceState::NotLiveRemote)));
    assert!(matches!(
        failed(clear().next(GcReply::Exists(Err("down".to_string())))),
        GcError::Recheck { .. }
    ));
    let present = || clear().next(GcReply::Exists(Ok(true)));
    assert!(matches!(
        failed(present().next(GcReply::Verified(Err(StorageError::Transport("x".to_string()))))),
        GcError::Presence { .. }
    ));
    let gone = present()
        .next(GcReply::Verified(Ok(())))
        .next(GcReply::BlobDeleted(Ok(())))
        .next(GcReply::TombstoneDeleted(Err("down".to_string())));
    assert!(matches!(failed(gone), GcError::DeleteTombstone { .. }));
    let mut unactivated = membership();
    unactivated.uploaders = vec![];
    let orphan = gc_with(unactivated, PAST, vec![tombstone_key(&stored("photoaaa"), ".enc")])
        .next(GcReply::Read(good_read("photoaaa")))
        .next(GcReply::References(Ok(StoredBlobReferenceState::NotLiveRemote)));
    match orphan.step {
        GcStep::Failed { error: GcError::UnactivatedUploader { .. } } => {}
        other => panic!("{other:?}"),
    }
}

#[test]
fn a_tombstone_is_dated_so_that_its_grace_can_be_read_back() {
    for (seconds, nanos, text) in [
        (T0_SECONDS, 5, "2024-06-01T00:00:00.000000005+00:00"),
        (59, 1_500_000_000, "1970-01-01T00:00:60.500+00:00"),
        (-62_167_219_200, 0, "0000-01-01T00:00:00+00:00"),
        (253_402_300_799, 0, "9999-12-31T23:59:59+00:00"),
        (253_402_300_800, 0, "+10000-01-01T00:00:00+00:00"),
    ] {
        let now = Instant { seconds, nanos };
        let work = TombstoneDrain::start(
            "lib".to_string(),
            now,
            Ok(VecDeque::from(vec![delete_entry(1, "photoaaa")])),
        )
        .next(TombstoneReply::Read(TombstoneRead::NotFound("k".to_string())));
        match &work.step {
            TombstoneStep::WriteTombstone { deleted_at, .. } => assert_eq!(deleted_at, text),
            other => panic!("{other:?}"),
        }
        let read = chrono::DateTime::parse_from_rfc3339(text);
        if seconds <= 253_402_300_799 {
            let read = read.unwrap();
            assert_eq!((read.timestamp(), read.timestamp_subsec_nanos()), (seconds, nanos));
        } else {
            assert!(read.is_err());
        }
    }
}
