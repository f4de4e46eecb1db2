use coven_core::blob::locator::{BlobLocator, ExactObjectRef, RemoteAudience, StoredBlobRef};
use coven_core::blob::transition::PostUpload;
use coven_core::blob::upload::{
    set_upload_state, upload_label, EntryOutcome, UploadAttempt, UploadDrain, UploadFailure,
    UploadFailureCause, UploadFailures, UploadFault, UploadJob, UploadProgress, UploadReply,
    UploadStep,
};
use coven_core::blob::{BlobRef, BlobScope, CacheFill, Provenance, TransferLimit};
use coven_core::clock::Instant;
use coven_core::digest::{KeyFingerprint, ObjectHash};
use coven_core::outbox::{
    MakeRemoteIntentState, OutboxEntry, OutboxOperation, OutboxUploadState, RowBlobAuthority,
    RowBlobRef,
};
use coven_core::storage::{BlobSpoolProtection, StorageError};
use coven_core::store_dir::StoreDir;
use std::collections::VecDeque;

fn row(id: &str, cloud_path: Option<&str>) -> RowBlobRef {
    RowBlobRef {
        table: "note_photos".to_string(),
        row_id: id.to_string(),
        row_stamp: "0000000001000-0000-A".to_string(),
        column: "id".to_string(),
        blob: BlobRef {
            namespace: "photos".to_string(),
            id: id.to_string(),
            scope: BlobScope::Master,
            cloud_path: cloud_path.map(str::to_string),
            provenance: Provenance::UserProvided,
            fill: CacheFill::CacheLazy,
        },
        plaintext_size: 3,
        plaintext_hash: ObjectHash::digest(b"abc"),
        authority: RowBlobAuthority::PendingRemote(RemoteAudience::Store),
        stored: None,
    }
}

fn job(id: i64, blob_id: &str, retain_pinned: bool) -> UploadJob {
    UploadJob {
        id,
        attempt_count: 0,
        last_attempt_at: None,
        root_table: "notes".to_string(),
        root_id: "n1".to_string(),
        row: row(blob_id, Some("cv/photo.jpg")),
        source_path: "/user/photo.jpg".to_string(),
        retain_pinned,
        state: OutboxUploadState::Pending,
    }
}

fn stored(locator: &BlobLocator) -> StoredBlobRef {
    StoredBlobRef {
        locator: locator.clone(),
        object: ExactObjectRef {
            logical_key: locator.semantic_key().to_string(),
            stored_size: 19,
            object_id: ObjectHash::digest(b"object"),
        },
    }
}

fn attempt(job: UploadJob) -> UploadAttempt {
    let start = Instant { seconds: 1_717_200_000, nanos: 250_000_000 };
    UploadAttempt::start(job, "11".repeat(32), StoreDir::new("/store".to_string()), &start)
}

fn opaque_protection() -> BlobSpoolProtection {
    BlobSpoolProtection::Opaque(KeyFingerprint::from_bytes([7; 8]))
}

/// Drives an attempt to the step at which its object is created.
fn up_to_creation(job: UploadJob) -> (UploadAttempt, StoredBlobRef) {
    let at = attempt(job).next(UploadReply::Done);
    let at = at.next(UploadReply::Intent(Ok(Some(MakeRemoteIntentState::Uploading))));
    let at = at.next(UploadReply::Protection(Ok(opaque_protection())));
    let at = at.next(UploadReply::Storage(Ok(())));
    let at = at.next(UploadReply::Slot(Ok("slot-1".to_string())));
    let object = match &at.step {
        UploadStep::PrepareObject { locator, slot, .. } => {
            assert_eq!(slot, "slot-1");
            stored(locator)
        }
        other => panic!("{other:?}"),
    };
    let at = at.next(UploadReply::Prepared(Ok(object.clone())));
    let at = at.next(UploadReply::Local(Ok(())));
    assert!(matches!(at.step, UploadStep::CreateObject { .. }));
    (at, object)
}

#[test]
fn a_pending_upload_is_sealed_prepared_created_and_verified() {
    let at = attempt(job(1, "photoaaa", false));
    assert!(matches!(at.step, UploadStep::NotifyStarted));
    let at = at.next(UploadReply::Done);
    assert!(matches!(at.step, UploadStep::ReadIntent));
    let at = at.next(UploadReply::Intent(Ok(Some(MakeRemoteIntentState::Uploading))));
    assert!(matches!(at.step, UploadStep::AskProtection));
    let at = at.next(UploadReply::Protection(Ok(opaque_protection())));
    match &at.step {
        UploadStep::Seal { locator, spool_path } => {
            assert_eq!(
                locator.semantic_key(),
                format!(
                    "photos/opaque/{}/0707070707070707/ph/ot/photoaaa",
                    "11".repeat(32)
                )
            );
            assert_eq!(locator.plaintext_size(), 3);
            assert_eq!(locator.plaintext_hash(), ObjectHash::digest(b"abc"));
            assert_eq!(
                spool_path,
                &format!("/store/storage/outbound/{}", locator.locator_hash().to_text())
            );
        }
        other => panic!("{other:?}"),
    }

    let (at, object) = up_to_creation(job(1, "photoaaa", false));
    assert!(matches!(
        &at.job.state,
        OutboxUploadState::Prepared { stored, .. } if stored.same(&object)
    ));
    let at = at.next(UploadReply::Storage(Ok(())));
    assert!(matches!(at.step, UploadStep::VerifyObject { .. }));
    assert!(matches!(at.job.state, OutboxUploadState::Prepared { .. }));
    let at = at.next(UploadReply::Storage(Ok(())));
    assert!(matches!(at.step, UploadStep::MarkCreated { .. }));
    let at = at.next(UploadReply::Local(Ok(())));
    assert!(matches!(
        &at.job.state,
        OutboxUploadState::Created { stored, .. } if stored.same(&object)
    ));
    let at = at.next(UploadReply::Done);
    assert!(matches!(at.step, UploadStep::Finalize { .. }));
    let at = at.next(UploadReply::Finalized(Ok(PostUpload::MadeRemote {
        root_table: "notes".to_string(),
        root_id: "n1".to_string(),
    })));
    assert!(matches!(at.step, UploadStep::NotifyMadeRemote { .. }));
    let at = at.next(UploadReply::Done);
    assert!(matches!(
        at.outcome(),
        Ok(EntryOutcome::Uploaded { made_remote: true, created_this_pass: true })
    ));
}

#[test]
fn a_readable_home_needs_a_readable_path() {
    let mut without = job(4, "photoaaa", false);
    without.row = row("photoaaa", None);
    let at = attempt(without).next(UploadReply::Done);
    let at = at.next(UploadReply::Intent(Ok(None)));
    let at = at.next(UploadReply::Protection(Ok(BlobSpoolProtection::Browsable)));
    match &at.step {
        UploadStep::RecordFailure { fault, object, attempted_at } => {
            assert_eq!(attempted_at, "2024-06-01T00:00:00.250+00:00");
            assert!(matches!(fault, UploadFault::NoReadablePath));
            assert!(object.is_none());
            assert_eq!(
                fault.message(&at.job.row),
                "Browsable blob photos/photoaaa has no readable path"
            );
        }
        other => panic!("{other:?}"),
    }
    let at = at.next(UploadReply::Done).next(UploadReply::Done);
    match at.outcome() {
        Ok(EntryOutcome::NotUploaded(failure)) => {
            assert_eq!(failure.entry_id, 4);
            assert!(matches!(failure.cause, UploadFailureCause::Local(_)));
        }
        other => panic!("{other:?}"),
    }
}

#[test]
fn a_readable_home_names_the_version_under_its_path() {
    let at = attempt(job(1, "photoaaa", false)).next(UploadReply::Done);
    let at = at.next(UploadReply::Intent(Ok(None)));
    let at = at.next(UploadReply::Protection(Ok(BlobSpoolProtection::Browsable)));
    match &at.step {
        UploadStep::Seal { locator, .. } => assert_eq!(
            locator.semantic_key(),
            format!(
                "photos/readable/cv/photo.jpg/.coven-versions/{}/photoaaa/{}",
                "11".repeat(32),
                ObjectHash::digest(b"abc").to_text()
            )
        ),
        other => panic!("{other:?}"),
    }
}

#[test]
fn a_blob_that_has_no_locator_fails_its_upload() {
    let at = attempt(job(1, "ab", false)).next(UploadReply::Done);
    let at = at.next(UploadReply::Intent(Ok(None)));
    let at = at.next(UploadReply::Protection(Ok(opaque_protection())));
    match &at.step {
        UploadStep::RecordFailure { fault: UploadFault::Locator(error), .. } => assert_eq!(
            error.message(),
            "unsafe blob id \"ab\": path token is too short to partition"
        ),
        other => panic!("{other:?}"),
    }
}

#[test]
fn a_storage_failure_is_recorded_and_keeps_its_kind() {
    let (at, _) = up_to_creation(job(9, "photoaaa", false));
    let at = at.next(UploadReply::Storage(Err(StorageError::Transport("down".to_string()))));
    match &at.step {
        UploadStep::RecordFailure { fault, .. } => {
            assert_eq!(fault.message(&at.job.row), "transport: down");
        }
        other => panic!("{other:?}"),
    }
    let at = at.next(UploadReply::Done);
    assert!(matches!(at.step, UploadStep::NotifyFailed { .. }));
    let at = at.next(UploadReply::Done);
    assert!(matches!(at.job.state, OutboxUploadState::Prepared { .. }));
    match at.outcome() {
        Ok(EntryOutcome::NotUploaded(failure)) => assert!(matches!(
            failure.cause,
            UploadFailureCause::Storage(StorageError::Transport(_))
        )),
        other => panic!("{other:?}"),
    }
}

#[test]
fn a_failed_intent_read_and_a_failed_mark_are_local_failures() {
    let at = attempt(job(1, "photoaaa", false)).next(UploadReply::Done);
    let at = at.next(UploadReply::Intent(Err("locked".to_string())));
    assert!(matches!(
        &at.step,
        UploadStep::RecordFailure { fault: UploadFault::Database(detail), object: None, .. } if detail == "locked"
    ));

    let (at, object) = up_to_creation(job(1, "photoaaa", false));
    let at = at.next(UploadReply::Storage(Ok(()))).next(UploadReply::Storage(Ok(())));
    let at = at.next(UploadReply::Local(Err("disk".to_string())));
    assert!(matches!(
        &at.step,
        UploadStep::RecordFailure { fault: UploadFault::Database(_), object: Some(kept), .. } if kept.same(&object)
    ));
    assert!(matches!(at.job.state, OutboxUploadState::Prepared { .. }));
}

#[test]
fn a_failed_pin_keeps_the_created_object() {
    let (at, _) = up_to_creation(job(1, "photoaaa", true));
    let at = at.next(UploadReply::Storage(Ok(()))).next(UploadReply::Storage(Ok(())));
    let at = at.next(UploadReply::Local(Ok(()))).next(UploadReply::Done);
    assert!(matches!(at.step, UploadStep::PopulatePinned { .. }));
    let at = at.next(UploadReply::Local(Err("blocker".to_string())));
    match &at.step {
        UploadStep::RecordFailure { fault, .. } => {
            assert_eq!(fault.message(&at.job.row), "pin uploaded blob: blocker");
        }
        other => panic!("{other:?}"),
    }
    assert!(matches!(at.job.state, OutboxUploadState::Created { .. }));
}

#[test]
fn a_resumed_upload_starts_where_it_was() {
    let (_, object) = up_to_creation(job(1, "photoaaa", false));
    let mut prepared = job(1, "photoaaa", false);
    prepared.state = OutboxUploadState::Prepared {
        authority: RemoteAudience::Store,
        stored: object.clone(),
        spool_path: "/spool".to_string(),
    };
    let at = attempt(prepared).next(UploadReply::Done).next(UploadReply::Intent(Ok(None)));
    assert!(matches!(&at.step, UploadStep::CreateObject { stored, spool_path }
        if stored.same(&object) && spool_path == "/spool"));

    let mut created = job(1, "photoaaa", false);
    created.state = OutboxUploadState::Created {
        authority: RemoteAudience::Store,
        stored: object.clone(),
        spool_path: "/spool".to_string(),
    };
    let at = attempt(created).next(UploadReply::Done).next(UploadReply::Intent(Ok(None)));
    assert!(matches!(at.step, UploadStep::Finalize { .. }));
    let at = at.next(UploadReply::Finalized(Ok(PostUpload::Waiting)));
    assert!(matches!(
        at.outcome(),
        Ok(EntryOutcome::Uploaded { made_remote: false, created_this_pass: false })
    ));
}

#[test]
fn a_cancelled_upload_is_undone_before_it_is_forgotten() {
    let (_, object) = up_to_creation(job(1, "photoaaa", false));
    let mut created = job(1, "photoaaa", false);
    created.state = OutboxUploadState::Created {
        authority: RemoteAudience::Store,
        stored: object.clone(),
        spool_path: "/spool".to_string(),
    };
    let at = attempt(created).next(UploadReply::Done);
    let at = at.next(UploadReply::Intent(Ok(Some(MakeRemoteIntentState::Cancelling))));
    assert!(matches!(&at.step, UploadStep::DeleteObject { stored, .. } if stored.same(&object)));
    let at = at.next(UploadReply::Storage(Ok(())));
    assert!(matches!(at.step, UploadStep::RemoveSpool { .. }));
    let at = at.next(UploadReply::Local(Ok(())));
    assert!(matches!(at.step, UploadStep::DropCached { .. }));
    let at = at.next(UploadReply::Local(Ok(())));
    assert!(matches!(at.step, UploadStep::FinishCancelled));
    let at = at.next(UploadReply::Local(Ok(())));
    assert!(matches!(
        at.outcome(),
        Ok(EntryOutcome::Uploaded { made_remote: false, created_this_pass: false })
    ));
}

#[test]
fn each_step_of_undoing_can_fail() {
    let (_, object) = up_to_creation(job(1, "photoaaa", false));
    let start = || {
        let mut created = job(1, "photoaaa", false);
        created.state = OutboxUploadState::Created {
            authority: RemoteAudience::Store,
            stored: object.clone(),
            spool_path: "/spool".to_string(),
        };
        attempt(created)
            .next(UploadReply::Done)
            .next(UploadReply::Intent(Ok(Some(MakeRemoteIntentState::Cancelling))))
    };
    let said = |at: &UploadAttempt| match &at.step {
        UploadStep::RecordFailure { fault, .. } => fault.message(&at.job.row),
        other => panic!("{other:?}"),
    };
    let at = start().next(UploadReply::Storage(Err(StorageError::Other("denied".to_string()))));
    assert_eq!(said(&at), "blob storage: denied");
    let at = start().next(UploadReply::Storage(Ok(())));
    let at = at.next(UploadReply::Local(Err("busy".to_string())));
    assert_eq!(said(&at), "local upload source: busy");
    let at = start().next(UploadReply::Storage(Ok(()))).next(UploadReply::Local(Ok(())));
    let at = at.next(UploadReply::Local(Err("busy".to_string())));
    assert_eq!(said(&at), "local upload source: drop cancelled cache copy: busy");
    let at = start().next(UploadReply::Storage(Ok(())));
    let at = at.next(UploadReply::Local(Ok(()))).next(UploadReply::Local(Ok(())));
    let at = at.next(UploadReply::Local(Err("locked".to_string())));
    assert_eq!(said(&at), "local upload source: locked");
}

#[test]
fn an_upload_for_another_audience_is_refused() {
    let (_, object) = up_to_creation(job(1, "photoaaa", false));
    let mut prepared = job(1, "photoaaa", false);
    prepared.state = OutboxUploadState::Prepared {
        authority: RemoteAudience::Circle(coven_core::digest::CircleId::from_bytes([1; 16])),
        stored: object,
        spool_path: "/spool".to_string(),
    };
    let at = attempt(prepared).next(UploadReply::Done).next(UploadReply::Intent(Ok(None)));
    match &at.step {
        UploadStep::RecordFailure { fault, .. } => assert_eq!(
            fault.message(&at.job.row),
            "make_remote upload has non-Store package authority"
        ),
        other => panic!("{other:?}"),
    }
}

#[test]
fn a_reply_that_answers_nothing_changes_nothing() {
    let at = attempt(job(1, "photoaaa", false)).next(UploadReply::Storage(Ok(())));
    assert!(matches!(at.step, UploadStep::NotifyStarted));
    assert!(at.outcome().is_err());
}

fn entries(count: i64) -> VecDeque<OutboxEntry> {
    (1..=count).map(|id| job(id, &format!("blob{id:04}"), false).entry()).collect()
}

fn limit(value: usize) -> TransferLimit {
    TransferLimit::new(value).unwrap()
}

fn now() -> Instant {
    Instant { seconds: 1_717_200_000, nanos: 0 }
}

fn uploaded() -> EntryOutcome {
    EntryOutcome::Uploaded { made_remote: false, created_this_pass: true }
}

#[test]
fn a_drain_with_limit_one_takes_every_entry_in_order() {
    let mut drain = UploadDrain::start(entries(3), now(), limit(1));
    let mut seen = Vec::new();
    while drain.has_pending() {
        assert!(drain.may_admit());
        let (rest, entry) = drain.take_next(false);
        drain = rest;
        seen.push(entry.unwrap().id);
        assert!(!drain.may_admit());
        drain = drain.absorb(uploaded());
    }
    assert_eq!(seen, vec![1, 2, 3]);
    let outcome = drain.finish();
    assert_eq!(outcome.uploaded, 3);
    assert!(!outcome.yielded_for_publish);
    assert!(outcome.failures.failures().is_empty());
}

#[test]
fn a_drain_overlaps_up_to_its_limit() {
    let drain = UploadDrain::start(entries(3), now(), limit(2));
    let (drain, first) = drain.take_next(false);
    let (drain, second) = drain.take_next(false);
    assert_eq!((first.unwrap().id, second.unwrap().id), (1, 2));
    assert_eq!(drain.inflight(), 2);
    assert!(!drain.may_admit());
    let drain = drain.absorb(uploaded());
    assert!(drain.may_admit());
    assert_eq!(drain.inflight(), 1);
}

#[test]
fn a_failure_does_not_block_what_follows() {
    let drain = UploadDrain::start(entries(2), now(), limit(1));
    let (drain, first) = drain.take_next(false);
    let drain = drain.absorb(EntryOutcome::NotUploaded(UploadFailure {
        entry_id: first.unwrap().id,
        object_key: "k".to_string(),
        cause: UploadFailureCause::Storage(StorageError::Transport("down".to_string())),
    }));
    let (drain, second) = drain.take_next(false);
    assert_eq!(second.unwrap().id, 2);
    let outcome = drain.absorb(uploaded()).finish();
    assert_eq!(outcome.uploaded, 1);
    assert_eq!(outcome.failures.failures().len(), 1);
    assert!(outcome.failures.has_transport_failure());
}

#[test]
fn a_paused_queue_admits_nothing_more() {
    let drain = UploadDrain::start(entries(2), now(), limit(2));
    let (drain, first) = drain.take_next(false);
    assert!(first.is_some());
    let (drain, second) = drain.take_next(true);
    assert!(second.is_none());
    assert!(!drain.may_admit());
    assert_eq!(drain.absorb(uploaded()).finish().uploaded, 1);
}

#[test]
fn a_published_root_stops_the_drain() {
    let drain = UploadDrain::start(entries(2), now(), limit(1));
    let (drain, _) = drain.take_next(false);
    let drain = drain.absorb(EntryOutcome::Uploaded { made_remote: true, created_this_pass: true });
    assert!(!drain.may_admit());
    let outcome = drain.finish();
    assert!(outcome.yielded_for_publish);
    assert_eq!(outcome.uploaded, 1);
}

#[test]
fn an_entry_inside_its_window_is_skipped() {
    let mut waiting = job(1, "blob0001", false);
    waiting.attempt_count = 1;
    waiting.last_attempt_at = Some("2024-06-01T00:00:00Z".to_string());
    let mut queue = VecDeque::new();
    queue.push_back(waiting.entry());
    queue.push_back(job(2, "blob0002", false).entry());
    let inside = Instant { seconds: 1_717_200_010, nanos: 0 };
    let (_, entry) = UploadDrain::start(queue, inside, limit(1)).take_next(false);
    assert_eq!(entry.unwrap().id, 2);
}

#[test]
fn an_entry_is_labelled_and_keeps_everything_but_its_state() {
    let mut entry = job(7, "photoaaa", true).entry();
    let before = entry.clone();
    assert_eq!(upload_label(&entry), "note_photos/photoaaa/id@0000000001000-0000-A");
    let (_, object) = up_to_creation(job(7, "photoaaa", true));
    set_upload_state(
        &mut entry,
        OutboxUploadState::Created {
            authority: RemoteAudience::Store,
            stored: object,
            spool_path: "/spool".to_string(),
        },
    );
    assert!(!entry.same(&before));
    match entry.operation {
        OutboxOperation::Upload { retain_pinned, state, row, .. } => {
            assert!(retain_pinned);
            assert!(matches!(state, OutboxUploadState::Created { .. }));
            assert_eq!(row.blob.id, "photoaaa");
        }
        other => panic!("{other:?}"),
    }
    assert!(UploadJob::from_entry(before).is_ok());
}

#[test]
fn failures_are_said_together() {
    let failures = UploadFailures(vec![UploadFailure {
        entry_id: 3,
        object_key: "photos/k".to_string(),
        cause: UploadFailureCause::Storage(StorageError::NotFound("gone".to_string())),
    }]);
    assert!(!failures.has_transport_failure());
    assert!(failures.transport_failure().is_none());
    assert!(failures.message().contains("blob storage: not found: gone"));
}

#[test]
fn progress_only_advances_and_ends_at_the_total() {
    let mut progress = UploadProgress::start(100);
    assert_eq!(progress.tick(0), None);
    assert_eq!(progress.tick(40), Some((40, 100)));
    assert_eq!(progress.tick(40), None);
    assert_eq!(progress.tick(60), Some((60, 100)));
    assert_eq!(progress.finish(true), Some((100, 100)));
    assert_eq!(progress.finish(false), None);
}
