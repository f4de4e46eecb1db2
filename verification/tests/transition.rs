use coven_core::blob::locator::{BlobLocator, ExactObjectRef, RemoteAudience, StoredBlobRef};
use coven_core::blob::make_local::{
    restamp_sql, DestPath, MakeLocal, MakeLocalError, MakeLocalReply, MakeLocalStep, PublishReply,
    WrittenFile,
};
use coven_core::blob::transition::{
    cancel_make_remote, finalize_created_upload, CancelAction, Finalization, MakeRemote,
    MakeRemoteError, MakeRemoteReply, MakeRemoteStep,
};
use coven_core::blob::{BlobRef, BlobScope, CacheFill, Provenance};
use coven_core::database::DbError;
use coven_core::digest::{KeyFingerprint, ObjectHash};
use coven_core::outbox::{
    ExternalBlob, MakeRemoteIntentState, OutboxEntry, OutboxOperation, OutboxUploadState,
    RowBlobAuthority, RowBlobRef,
};
use coven_core::session::SyncedTable;
use coven_core::store_dir::StoreDir;

fn table(name: &str, gate: Option<&str>, remote_root: bool) -> SyncedTable {
    SyncedTable {
        name: name.to_string(),
        blob: None,
        gate_column: gate.map(str::to_string),
        remote_root,
    }
}

fn tables() -> Vec<SyncedTable> {
    vec![
        table("plain", None, false),
        table("notes", Some("shared"), false),
        table("profile", None, true),
    ]
}

fn stored(id: &str) -> StoredBlobRef {
    let locator = BlobLocator::opaque(
        "photos".to_string(),
        id.to_string(),
        "11".repeat(32),
        RemoteAudience::Store,
        BlobScope::Master,
        KeyFingerprint::from_bytes([4; 8]),
        3,
        ObjectHash::digest(b"abc"),
    )
    .unwrap();
    StoredBlobRef {
        object: ExactObjectRef {
            logical_key: locator.semantic_key().to_string(),
            stored_size: 19,
            object_id: ObjectHash::digest(id.as_bytes()),
        },
        locator,
    }
}

fn row(id: &str, provenance: Provenance, remote: bool) -> RowBlobRef {
    RowBlobRef {
        table: "note_photos".to_string(),
        row_id: id.to_string(),
        row_stamp: "0000000001000-0000-A".to_string(),
        column: "id".to_string(),
        blob: BlobRef {
            namespace: "photos".to_string(),
            id: id.to_string(),
            scope: BlobScope::Master,
            cloud_path: None,
            provenance,
            fill: CacheFill::CacheLazy,
        },
        plaintext_size: 3,
        plaintext_hash: ObjectHash::digest(b"abc"),
        authority: if remote {
            RowBlobAuthority::Remote(RemoteAudience::Store)
        } else {
            RowBlobAuthority::Local
        },
        stored: if remote { Some(stored(id)) } else { None },
    }
}

fn facts() -> MakeRemoteReply {
    MakeRemoteReply::Facts(Ok((3, ObjectHash::digest(b"abc"))))
}

fn make_remote() -> MakeRemote {
    MakeRemote::start(
        &tables(),
        StoreDir::new("/store".to_string()),
        "notes".to_string(),
        "n1".to_string(),
        true,
    )
    .unwrap()
}

fn message(text: &str) -> DbError {
    DbError::Message(text.to_string())
}

fn refusal(transition: MakeRemote) -> String {
    match transition.step {
        MakeRemoteStep::Failed { error } => error.message(),
        other => panic!("{other:?}"),
    }
}

#[test]
fn only_a_gated_root_can_move() {
    let start = |root: &str| {
        MakeRemote::start(
            &tables(),
            StoreDir::new("/store".to_string()),
            root.to_string(),
            "n1".to_string(),
            false,
        )
    };
    assert_eq!(
        start("profile").unwrap_err().message(),
        "table \"profile\" is a remote root, so its blobs are already Remote"
    );
    for ungated in ["plain", "absent"] {
        assert_eq!(
            start(ungated).unwrap_err().message(),
            format!("table \"{ungated}\" is not a gated root, so it has no Local/Remote state")
        );
    }
    assert_eq!(start("notes").unwrap().gate_column, "shared");
    assert_eq!(
        MakeRemoteError::SyncNotReady.message(),
        "sync is not running, so a transition cannot start"
    );
}

#[test]
fn make_remote_queues_what_it_verified() {
    let rows = || {
        vec![
            row("photoaaa", Provenance::UserProvided, false),
            row("coverrrr", Provenance::HostProvided, false),
        ]
    };
    let at = make_remote().next(MakeRemoteReply::Locality(Ok(Some(false))));
    let at = at.next(MakeRemoteReply::Rows(Ok(rows())));
    assert!(matches!(at.step, MakeRemoteStep::ReadExternal));
    let at = at.next(MakeRemoteReply::External(Ok(Some(ExternalBlob {
        path: "/user/photo.jpg".to_string(),
        size: 3,
    }))));
    assert!(matches!(&at.step, MakeRemoteStep::MeasureSource { path } if path == "/user/photo.jpg"));
    let at = at.next(facts());
    assert!(matches!(&at.step, MakeRemoteStep::MeasureSource { path }
        if path == "/store/storage/local/photos/coverrrr"));
    let at = at.next(facts());
    assert!(matches!(at.step, MakeRemoteStep::RecheckLocality));
    let at = at.next(MakeRemoteReply::Locality(Ok(Some(false))));
    let at = at.next(MakeRemoteReply::Rows(Ok(rows())));
    assert!(matches!(at.step, MakeRemoteStep::ReadQueue));
    let at = at.next(MakeRemoteReply::Queue(Ok(vec![])));
    assert!(matches!(&at.step, MakeRemoteStep::Enqueue { writes } if writes == &[None, None]));
    assert_eq!(at.sources, vec!["/user/photo.jpg", "/store/storage/local/photos/coverrrr"]);
    assert!(at.pin);
    let at = at.next(MakeRemoteReply::Db(Ok(())));
    assert!(matches!(at.step, MakeRemoteStep::Done));
}

/// One transition of the one photo, up to what it asks the queue for.
fn requeue(source: &str, queued: Vec<OutboxEntry>) -> MakeRemote {
    let rows = || vec![row("photoaaa", Provenance::UserProvided, false)];
    make_remote()
        .next(MakeRemoteReply::Locality(Ok(Some(false))))
        .next(MakeRemoteReply::Rows(Ok(rows())))
        .next(MakeRemoteReply::External(Ok(Some(ExternalBlob { path: source.to_string(), size: 3 }))))
        .next(facts())
        .next(MakeRemoteReply::Locality(Ok(Some(false))))
        .next(MakeRemoteReply::Rows(Ok(rows())))
        .next(MakeRemoteReply::Queue(Ok(queued)))
}

#[test]
fn re_enqueue_updates_the_pending_upload_pin() {
    let first = requeue("/user/photo.jpg", vec![]);
    assert!(matches!(&first.step, MakeRemoteStep::Enqueue { writes } if writes == &[None]));
    let queued = || {
        vec![
            entry(6, "photobbb", OutboxUploadState::Pending),
            entry(7, "photoaaa", OutboxUploadState::Pending),
        ]
    };
    let again = requeue("/user/photo.jpg", queued());
    assert!(again.pin);
    assert!(matches!(&again.step, MakeRemoteStep::Enqueue { writes } if writes == &[Some(7)]));
}

#[test]
fn re_enqueue_updates_the_pending_upload_source_path() {
    let queued = vec![entry(7, "photoaaa", OutboxUploadState::Pending)];
    let again = requeue("/user/relocated.jpg", queued);
    assert_eq!(again.sources, vec!["/user/relocated.jpg"]);
    assert!(matches!(&again.step, MakeRemoteStep::Enqueue { writes } if writes == &[Some(7)]));
    let unread = requeue("/user/photo.jpg", vec![]);
    assert!(matches!(unread.next(MakeRemoteReply::Db(Ok(()))).step, MakeRemoteStep::Done));
}

#[test]
fn make_remote_says_why_it_is_refused() {
    assert_eq!(
        refusal(make_remote().next(MakeRemoteReply::Locality(Ok(Some(true))))),
        "root \"notes\"/\"n1\" is already Remote, so make_remote has nothing to do"
    );
    assert_eq!(
        refusal(make_remote().next(MakeRemoteReply::Locality(Ok(None)))),
        "root \"notes\"/\"n1\" has no resolvable Local/Remote state (row absent or gate NULL)"
    );
    assert_eq!(
        refusal(make_remote().next(MakeRemoteReply::Locality(Err(message("locked"))))),
        "database error: database error: locked"
    );
    let at = || make_remote().next(MakeRemoteReply::Locality(Ok(Some(false))));
    assert_eq!(
        refusal(at().next(MakeRemoteReply::Rows(Ok(vec![])))),
        "nothing to make Remote: root \"notes\"/\"n1\" has no blobs"
    );
    assert_eq!(
        refusal(at().next(MakeRemoteReply::Rows(Ok(vec![row(
            "photoaaa",
            Provenance::UserProvided,
            true
        )])))),
        "root \"notes\"/\"n1\" is already Remote, so make_remote has nothing to do"
    );
    let reading = || {
        at().next(MakeRemoteReply::Rows(Ok(vec![row("photoaaa", Provenance::UserProvided, false)])))
    };
    assert_eq!(
        refusal(reading().next(MakeRemoteReply::External(Ok(None)))),
        "blob \"photoaaa\" is not a user-provided (external) file, so it cannot be made Remote"
    );
    let measuring = || {
        reading().next(MakeRemoteReply::External(Ok(Some(ExternalBlob {
            path: "/user/photo.jpg".to_string(),
            size: 3,
        }))))
    };
    assert_eq!(
        refusal(measuring().next(MakeRemoteReply::Facts(Err("gone".to_string())))),
        "external source for blob \"photoaaa\" at /user/photo.jpg: gone"
    );
}

#[test]
fn a_source_of_another_size_or_content_is_refused() {
    let measuring = || {
        make_remote()
            .next(MakeRemoteReply::Locality(Ok(Some(false))))
            .next(MakeRemoteReply::Rows(Ok(vec![row("photoaaa", Provenance::UserProvided, false)])))
            .next(MakeRemoteReply::External(Ok(Some(ExternalBlob {
                path: "/p".to_string(),
                size: 3,
            }))))
    };
    let abc = ObjectHash::digest(b"abc");
    let xyz = ObjectHash::digest(b"xyz");
    assert_eq!(
        refusal(measuring().next(MakeRemoteReply::Facts(Ok((4, abc))))),
        format!(
            "external source for blob \"photoaaa\" at /p: plaintext facts 4/{} differ from row facts 3/{}",
            abc.to_text(),
            abc.to_text()
        )
    );
    assert_eq!(
        refusal(measuring().next(MakeRemoteReply::Facts(Ok((3, xyz))))),
        format!(
            "external source for blob \"photoaaa\" at /p: plaintext facts 3/{} differ from row facts 3/{}",
            xyz.to_text(),
            abc.to_text()
        )
    );
}

#[test]
fn rows_that_changed_meanwhile_stop_make_remote() {
    let at = make_remote()
        .next(MakeRemoteReply::Locality(Ok(Some(false))))
        .next(MakeRemoteReply::Rows(Ok(vec![row("coverrrr", Provenance::HostProvided, false)])))
        .next(facts())
        .next(MakeRemoteReply::Locality(Ok(Some(false))));
    let mut changed = row("coverrrr", Provenance::HostProvided, false);
    changed.row_stamp = "0000000002000-0000-A".to_string();
    assert_eq!(
        refusal(at.next(MakeRemoteReply::Rows(Ok(vec![changed])))),
        "database error: database error: blob rows below \"notes\"/\"n1\" changed while make_remote verified their sources"
    );
}

#[test]
fn cancelling_asks_for_an_intent_that_can_be_cancelled() {
    let cancel = |intent| cancel_make_remote(&tables(), "notes", "n1", intent, Ok(Some(false)));
    assert!(matches!(
        cancel(Ok(Some(MakeRemoteIntentState::Uploading))),
        Ok(CancelAction::MarkCancelling)
    ));
    assert!(matches!(
        cancel(Ok(Some(MakeRemoteIntentState::Cancelling))),
        Ok(CancelAction::Nothing)
    ));
    assert_eq!(
        cancel(Ok(Some(MakeRemoteIntentState::Publishing("w1".to_string())))).unwrap_err().message(),
        "database error: database error: make_remote for \"notes\"/\"n1\" is already publishing as w1"
    );
    assert_eq!(
        cancel(Ok(None)).unwrap_err().message(),
        "database error: database error: make_remote for \"notes\"/\"n1\" does not exist"
    );
    assert!(matches!(
        cancel_make_remote(&tables(), "profile", "p", Ok(None), Ok(Some(true))),
        Err(MakeRemoteError::RemoteRoot(_))
    ));
}

#[test]
fn cancel_make_remote_after_completion_enqueues_no_deletes() {
    let cancel = |locality| cancel_make_remote(&tables(), "notes", "n1", Ok(None), locality);
    assert!(matches!(cancel(Ok(Some(true))), Ok(CancelAction::Nothing)));
    for unpublished in [Some(false), None] {
        assert_eq!(
            cancel(Ok(unpublished)).unwrap_err().message(),
            "database error: database error: make_remote for \"notes\"/\"n1\" does not exist"
        );
    }
    assert_eq!(
        cancel(Err(message("no such column"))).unwrap_err().message(),
        "database error: database error: no such column"
    );
}

fn created(id: i64, blob_id: &str) -> OutboxEntry {
    entry(
        id,
        blob_id,
        OutboxUploadState::Created {
            authority: RemoteAudience::Store,
            stored: stored(blob_id),
            spool_path: "/spool".to_string(),
        },
    )
}

fn entry(id: i64, blob_id: &str, state: OutboxUploadState) -> OutboxEntry {
    OutboxEntry {
        id,
        operation: OutboxOperation::Upload {
            root_table: "notes".to_string(),
            root_id: "n1".to_string(),
            row: row(blob_id, Provenance::UserProvided, false),
            source_path: "/user/photo.jpg".to_string(),
            retain_pinned: false,
            state,
        },
        attempt_count: 0,
        last_attempt_at: None,
    }
}

fn root() -> Result<Option<(String, String)>, DbError> {
    Ok(Some(("notes".to_string(), "n1".to_string())))
}

fn uploading() -> Result<Option<MakeRemoteIntentState>, DbError> {
    Ok(Some(MakeRemoteIntentState::Uploading))
}

#[test]
fn a_root_is_published_when_its_last_upload_is_created() {
    let rows = || {
        Ok(vec![
            row("photoaaa", Provenance::UserProvided, false),
            row("coverrrr", Provenance::HostProvided, false),
        ])
    };
    let waiting = finalize_created_upload(
        &created(1, "photoaaa"),
        &tables(),
        root(),
        uploading(),
        rows(),
        Ok(vec![created(1, "photoaaa"), entry(2, "coverrrr", OutboxUploadState::Pending)]),
    );
    assert!(matches!(waiting, Ok(Finalization::Waiting)));
    let published = finalize_created_upload(
        &created(1, "photoaaa"),
        &tables(),
        root(),
        uploading(),
        rows(),
        Ok(vec![created(1, "photoaaa"), created(2, "coverrrr")]),
    );
    match published {
        Ok(Finalization::Publish { gate_column, external }) => {
            assert_eq!(gate_column, "shared");
            assert_eq!(external.len(), 1);
            assert_eq!(external[0].blob.id, "photoaaa");
        }
        other => panic!("{other:?}"),
    }
}

#[test]
fn finalizing_says_what_is_wrong() {
    let done = created(1, "photoaaa");
    let one = || Ok(vec![row("photoaaa", Provenance::UserProvided, false)]);
    let said = |result: Result<Finalization, DbError>| result.unwrap_err().into_message();
    assert_eq!(
        said(finalize_created_upload(
            &entry(1, "photoaaa", OutboxUploadState::Pending),
            &tables(),
            root(),
            uploading(),
            one(),
            Ok(vec![])
        )),
        "make_remote finalizer requires a Created exact upload"
    );
    let delete = OutboxEntry {
        id: 1,
        operation: OutboxOperation::Delete { stored: stored("photoaaa") },
        attempt_count: 0,
        last_attempt_at: None,
    };
    assert_eq!(
        said(finalize_created_upload(&delete, &tables(), root(), uploading(), one(), Ok(vec![]))),
        "make_remote finalizer received a non-upload outbox entry"
    );
    assert_eq!(
        said(finalize_created_upload(&done, &tables(), Ok(None), uploading(), one(), Ok(vec![]))),
        "upload row \"note_photos\"/\"photoaaa\" has no gated transition root"
    );
    assert_eq!(
        said(finalize_created_upload(
            &done,
            &tables(),
            Ok(Some(("notes".to_string(), "n2".to_string()))),
            uploading(),
            one(),
            Ok(vec![])
        )),
        "upload row \"note_photos\"/\"photoaaa\" moved from make_remote root \"notes\"/\"n1\" to \"notes\"/\"n2\""
    );
    assert_eq!(
        said(finalize_created_upload(&done, &tables(), root(), Ok(None), one(), Ok(vec![]))),
        "upload for \"notes\"/\"n1\" has no make_remote intent"
    );
    assert_eq!(
        said(finalize_created_upload(&done, &tables(), root(), uploading(), one(), Ok(vec![]))),
        "make_remote root \"notes\"/\"n1\" has 1 blob rows but 0 exact upload journals"
    );
    assert_eq!(
        said(finalize_created_upload(
            &done,
            &tables(),
            root(),
            uploading(),
            one(),
            Ok(vec![created(2, "photoaaa")])
        )),
        "Created upload changed before make_remote finalization"
    );
    assert_eq!(
        said(finalize_created_upload(
            &done,
            &vec![],
            root(),
            uploading(),
            one(),
            Ok(vec![created(1, "photoaaa")])
        )),
        "make_remote root \"notes\" has no boolean gate column"
    );
    assert!(matches!(
        finalize_created_upload(
            &done,
            &tables(),
            root(),
            Ok(Some(MakeRemoteIntentState::Cancelling)),
            one(),
            Ok(vec![])
        ),
        Ok(Finalization::Cancelled)
    ));
    assert!(matches!(
        finalize_created_upload(
            &done,
            &tables(),
            root(),
            Ok(Some(MakeRemoteIntentState::Publishing("w".to_string()))),
            one(),
            Ok(vec![])
        ),
        Ok(Finalization::Waiting)
    ));
}

fn make_local(dest: Vec<(String, DestPath)>) -> MakeLocal {
    MakeLocal::start(
        &tables(),
        Ok(()),
        StoreDir::new("/store".to_string()),
        "notes".to_string(),
        "n1".to_string(),
        dest,
    )
    .unwrap()
}

fn photo_dest() -> Vec<(String, DestPath)> {
    vec![("photoaaa".to_string(), DestPath::Utf8("/dest/photo.jpg".to_string()))]
}

/// Brings the one user-provided blob to `/dest/photo.jpg`, up to the commit.
fn durable() -> MakeLocal {
    let at = make_local(photo_dest())
        .next(MakeLocalReply::Locality(Ok(Some(true))))
        .next(MakeLocalReply::Rows(Ok(vec![row("photoaaa", Provenance::UserProvided, true)])));
    assert!(matches!(at.step, MakeLocalStep::CheckCancel));
    let at = at.next(MakeLocalReply::Cancelled(false));
    assert!(matches!(&at.step, MakeLocalStep::PrepareParent { path } if path == "/dest/photo.jpg"));
    let at = at.next(MakeLocalReply::Local(Ok(()))).next(MakeLocalReply::Local(Ok(())));
    assert!(matches!(at.step, MakeLocalStep::Publish { .. }));
    let at = at.next(MakeLocalReply::Published(PublishReply::Published));
    assert!(matches!(at.step, MakeLocalStep::MeasureLength { .. }));
    let at = at.next(MakeLocalReply::Length(Ok(3)));
    assert!(matches!(at.step, MakeLocalStep::SyncParent { .. }));
    let at = at.next(MakeLocalReply::Local(Ok(())));
    assert!(matches!(at.step, MakeLocalStep::NotifyProgress { done: 1, total: 1 }));
    let at = at.next(MakeLocalReply::Done);
    assert!(matches!(at.step, MakeLocalStep::CheckCancelLast));
    at
}

fn local_rows() -> Vec<RowBlobRef> {
    vec![row("photoaaa", Provenance::UserProvided, false)]
}

fn committing() -> MakeLocal {
    let at = durable().next(MakeLocalReply::Cancelled(false));
    assert!(matches!(at.step, MakeLocalStep::TakeStamp));
    let at = at
        .next(MakeLocalReply::Stamp("0000000003000-0000-A".to_string()))
        .next(MakeLocalReply::Rows(Ok(vec![row("photoaaa", Provenance::UserProvided, true)])));
    assert!(matches!(at.step, MakeLocalStep::FlipGate));
    let at = at.next(MakeLocalReply::Db(Ok(())));
    assert!(matches!(at.step, MakeLocalStep::Restamp { row: 0 }));
    at.next(MakeLocalReply::Updated(Ok(1)))
}

#[test]
fn a_root_is_made_local_once_its_blobs_are_durable() {
    let at = committing();
    assert!(matches!(at.step, MakeLocalStep::RereadRows));
    let mut local = local_rows();
    local[0].row_stamp = "0000000003000-0000-A".to_string();
    let at = at.next(MakeLocalReply::Rows(Ok(local)));
    assert!(matches!(at.step, MakeLocalStep::RegisterExternal { row: 0 }));
    assert_eq!(at.homes, vec![Some("/dest/photo.jpg".to_string())]);
    let at = at.next(MakeLocalReply::Db(Ok(())));
    assert!(matches!(at.step, MakeLocalStep::EnqueueDelete { row: 0 }));
    let at = at.next(MakeLocalReply::Db(Ok(())));
    assert!(matches!(at.step, MakeLocalStep::CommitWrite));
    let at = at.next(MakeLocalReply::Db(Ok(())));
    assert!(matches!(at.step, MakeLocalStep::NotifyMadeLocal));
    let at = at.next(MakeLocalReply::Done);
    assert!(matches!(at.step, MakeLocalStep::Done));
}

#[test]
fn a_host_provided_blob_goes_back_to_the_local_store() {
    let at = make_local(vec![])
        .next(MakeLocalReply::Locality(Ok(Some(true))))
        .next(MakeLocalReply::Rows(Ok(vec![row("coverrrr", Provenance::HostProvided, true)])))
        .next(MakeLocalReply::Cancelled(false));
    assert!(matches!(&at.step, MakeLocalStep::Stage { path }
        if path == "/store/storage/local/photos/coverrrr"));
    let at = at.next(MakeLocalReply::Local(Ok(())));
    let at = at.next(MakeLocalReply::Published(PublishReply::DestinationExists("there".to_string())));
    assert!(matches!(at.step, MakeLocalStep::MeasureExisting { .. }));
    let same = at.next(MakeLocalReply::Facts(Ok((3, ObjectHash::digest(b"abc")))));
    assert!(matches!(same.step, MakeLocalStep::MeasureLength { .. }));
    assert!(same.written.is_empty());
}

fn failure(at: MakeLocal) -> MakeLocalError {
    match at.step {
        MakeLocalStep::Failed { error } => error,
        other => panic!("{other:?}"),
    }
}

#[test]
fn an_existing_file_is_never_replaced() {
    let at = || {
        make_local(photo_dest())
            .next(MakeLocalReply::Locality(Ok(Some(true))))
            .next(MakeLocalReply::Rows(Ok(vec![row("photoaaa", Provenance::UserProvided, true)])))
            .next(MakeLocalReply::Cancelled(false))
            .next(MakeLocalReply::Local(Ok(())))
            .next(MakeLocalReply::Local(Ok(())))
    };
    let taken = at().next(MakeLocalReply::Published(PublishReply::DestinationExists(
        "already there".to_string(),
    )));
    assert_eq!(
        failure(taken).message(),
        "write materialized blob \"photoaaa\" to /dest/photo.jpg: already there"
    );
    let host = make_local(vec![])
        .next(MakeLocalReply::Locality(Ok(Some(true))))
        .next(MakeLocalReply::Rows(Ok(vec![row("coverrrr", Provenance::HostProvided, true)])))
        .next(MakeLocalReply::Cancelled(false))
        .next(MakeLocalReply::Local(Ok(())))
        .next(MakeLocalReply::Published(PublishReply::DestinationExists("there".to_string())))
        .next(MakeLocalReply::Facts(Ok((3, ObjectHash::digest(b"xyz")))));
    assert_eq!(
        failure(host).message(),
        "write materialized blob \"coverrrr\" to /store/storage/local/photos/coverrrr: existing local-store file differs from the exact remote blob"
    );
}

fn retained(error: &MakeLocalError) -> Vec<String> {
    match error {
        MakeLocalError::PartialMaterialization { retained_paths, .. } => retained_paths.clone(),
        other => panic!("{other:?}"),
    }
}

#[test]
fn make_local_db_commit_failure_retains_a_replaced_user_destination() {
    let at = committing();
    assert!(matches!(&at.written[..], [WrittenFile::User(path)] if path == "/dest/photo.jpg"));
    let error = failure(at.next(MakeLocalReply::Rows(Err(message("forced")))));
    assert_eq!(retained(&error), vec!["/dest/photo.jpg"]);
    assert_eq!(
        error.message(),
        "make_local failed and published files stay in place: database error: database error: forced"
    );

    let mut local = local_rows();
    local[0].row_stamp = "0000000003000-0000-A".to_string();
    let at = committing()
        .next(MakeLocalReply::Rows(Ok(local)))
        .next(MakeLocalReply::Db(Ok(())))
        .next(MakeLocalReply::Db(Ok(())));
    assert!(matches!(at.step, MakeLocalStep::CommitWrite));
    let error = failure(at.next(MakeLocalReply::Db(Err(message("no commit")))));
    assert_eq!(retained(&error), vec!["/dest/photo.jpg"]);
}

fn publishing_cover() -> MakeLocal {
    make_local(vec![])
        .next(MakeLocalReply::Locality(Ok(Some(true))))
        .next(MakeLocalReply::Rows(Ok(vec![row("coverrrr", Provenance::HostProvided, true)])))
        .next(MakeLocalReply::Cancelled(false))
        .next(MakeLocalReply::Local(Ok(())))
        .next(MakeLocalReply::Published(PublishReply::Published))
        .next(MakeLocalReply::Length(Ok(3)))
        .next(MakeLocalReply::Local(Ok(())))
        .next(MakeLocalReply::Done)
        .next(MakeLocalReply::Cancelled(false))
        .next(MakeLocalReply::Stamp("0000000003000-0000-A".to_string()))
        .next(MakeLocalReply::Rows(Ok(vec![row("coverrrr", Provenance::HostProvided, true)])))
}

#[test]
fn make_local_db_commit_failure_removes_host_local_store_file() {
    let at = publishing_cover();
    assert!(matches!(at.step, MakeLocalStep::FlipGate));
    let at = at.next(MakeLocalReply::Db(Err(message("forced"))));
    assert!(matches!(&at.step, MakeLocalStep::RollBack { paths, index: 0, .. }
        if paths == &["/store/storage/local/photos/coverrrr"]));
    let error = failure(at.next(MakeLocalReply::Local(Ok(()))));
    assert!(matches!(error, MakeLocalError::Db(_)));
    assert_eq!(error.message(), "database error: database error: forced");

    let stuck = publishing_cover()
        .next(MakeLocalReply::Db(Err(message("forced"))))
        .next(MakeLocalReply::Local(Err("busy".to_string())));
    assert_eq!(
        failure(stuck).message(),
        "could not roll back materialized file at /store/storage/local/photos/coverrrr: busy"
    );
}

/// Two blobs, the first of them back at its path, the second about to be published.
fn second_publish(second: &str) -> MakeLocal {
    let dest = vec![
        ("photoaaa".to_string(), DestPath::Utf8("/dest/shared.jpg".to_string())),
        ("photobbb".to_string(), DestPath::Utf8(second.to_string())),
    ];
    make_local(dest)
        .next(MakeLocalReply::Locality(Ok(Some(true))))
        .next(MakeLocalReply::Rows(Ok(vec![
            row("photoaaa", Provenance::UserProvided, true),
            row("photobbb", Provenance::UserProvided, true),
        ])))
        .next(MakeLocalReply::Cancelled(false))
        .next(MakeLocalReply::Local(Ok(())))
        .next(MakeLocalReply::Local(Ok(())))
        .next(MakeLocalReply::Published(PublishReply::Published))
        .next(MakeLocalReply::Length(Ok(3)))
        .next(MakeLocalReply::Local(Ok(())))
        .next(MakeLocalReply::Done)
        .next(MakeLocalReply::Cancelled(false))
        .next(MakeLocalReply::Local(Ok(())))
        .next(MakeLocalReply::Local(Ok(())))
        .next(MakeLocalReply::Published(PublishReply::DestinationExists("taken".to_string())))
}

#[test]
fn make_local_retains_the_published_path_when_two_blobs_share_a_destination() {
    let error = failure(second_publish("/dest/shared.jpg"));
    assert_eq!(retained(&error), vec!["/dest/shared.jpg"]);
}

#[test]
fn a_failure_before_the_write_removes_what_was_published() {
    let at = second_publish("/dest/other.jpg");
    assert!(matches!(&at.step, MakeLocalStep::RollBack { paths, index: 0, .. }
        if paths == &["/dest/shared.jpg"]));
    assert_eq!(
        failure(at.next(MakeLocalReply::Local(Ok(())))).message(),
        "write materialized blob \"photobbb\" to /dest/other.jpg: taken"
    );
}

#[test]
fn a_cancelled_make_local_leaves_the_root_remote() {
    let at = durable().next(MakeLocalReply::Cancelled(true));
    assert!(matches!(at.step, MakeLocalStep::RollBack { .. }));
    let at = at.next(MakeLocalReply::Local(Ok(())));
    assert_eq!(
        failure(at).message(),
        "make_local cancelled before the commit; the release stays Remote"
    );
    let early = make_local(photo_dest())
        .next(MakeLocalReply::Locality(Ok(Some(true))))
        .next(MakeLocalReply::Rows(Ok(vec![row("photoaaa", Provenance::UserProvided, true)])))
        .next(MakeLocalReply::Cancelled(true));
    assert!(matches!(failure(early), MakeLocalError::Cancelled));
}

#[test]
fn make_local_says_why_it_is_refused() {
    let start = |root: &str, routing: Result<(), DbError>| {
        MakeLocal::start(
            &tables(),
            routing,
            StoreDir::new("/store".to_string()),
            root.to_string(),
            "n1".to_string(),
            vec![],
        )
    };
    assert_eq!(
        start("profile", Ok(())).unwrap_err().message(),
        "table \"profile\" is a remote root, so its blobs have no Local state"
    );
    assert_eq!(
        start("plain", Ok(())).unwrap_err().message(),
        "table \"plain\" is not a gated root, so it has no Local/Remote state"
    );
    assert_eq!(
        start("notes", Err(message("no routing"))).unwrap_err().message(),
        "database error: database error: no routing"
    );
    assert_eq!(
        failure(make_local(vec![]).next(MakeLocalReply::Locality(Ok(Some(false))))).message(),
        "root \"notes\"/\"n1\" is already Local, so make_local has nothing to do"
    );
    assert_eq!(
        failure(make_local(vec![]).next(MakeLocalReply::Locality(Ok(None)))).message(),
        "root \"notes\"/\"n1\" has no resolvable Local/Remote state (row absent or gate NULL)"
    );
    let read = |dest| make_local(dest).next(MakeLocalReply::Locality(Ok(Some(true))));
    let photo = || Ok(vec![row("photoaaa", Provenance::UserProvided, true)]);
    assert_eq!(
        failure(
            read(vec![])
                .next(MakeLocalReply::Rows(photo()))
                .next(MakeLocalReply::Cancelled(false))
        )
        .message(),
        "no destination path supplied for user-provided blob \"photoaaa\""
    );
    assert_eq!(
        failure(
            read(vec![("photoaaa".to_string(), DestPath::NotUtf8("photo-??.jpg".to_string()))])
                .next(MakeLocalReply::Rows(photo()))
        )
        .message(),
        "destination path for user-provided blob \"photoaaa\" is not valid UTF-8: photo-??.jpg"
    );
    let staging = || {
        read(photo_dest())
            .next(MakeLocalReply::Rows(photo()))
            .next(MakeLocalReply::Cancelled(false))
            .next(MakeLocalReply::Local(Ok(())))
    };
    assert_eq!(
        failure(staging().next(MakeLocalReply::Local(Err("offline".to_string())))).message(),
        "read blob \"photoaaa\" to materialize: offline"
    );
    let short = staging()
        .next(MakeLocalReply::Local(Ok(())))
        .next(MakeLocalReply::Published(PublishReply::Published))
        .next(MakeLocalReply::Length(Ok(2)))
        .next(MakeLocalReply::Local(Ok(())));
    assert_eq!(
        failure(short).message(),
        "write materialized blob \"photoaaa\" to /dest/photo.jpg: dest /dest/photo.jpg is 2 bytes after materialize, expected 3"
    );
    assert_eq!(
        failure(read(vec![]).next(MakeLocalReply::Rows(Ok(vec![row(
            "photoaaa",
            Provenance::UserProvided,
            false
        )]))))
        .message(),
        "root \"notes\"/\"n1\" has no resolvable Local/Remote state (row absent or gate NULL)"
    );
}

#[test]
fn a_row_that_moved_on_is_not_restamped() {
    let at = durable()
        .next(MakeLocalReply::Cancelled(false))
        .next(MakeLocalReply::Stamp("0000000003000-0000-A".to_string()))
        .next(MakeLocalReply::Rows(Ok(vec![row("photoaaa", Provenance::UserProvided, true)])))
        .next(MakeLocalReply::Db(Ok(())))
        .next(MakeLocalReply::Updated(Ok(0)));
    let error = failure(at);
    assert_eq!(retained(&error), vec!["/dest/photo.jpg"]);
    assert_eq!(
        error.message(),
        "make_local failed and published files stay in place: database error: database error: make_local row \"note_photos\"/\"photoaaa\" changed before restamping"
    );
    assert!(restamp_sql("note_photos").contains("\"note_photos\""));
}
