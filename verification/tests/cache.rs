use coven_core::blob::access::{
    populate_pinned, write_blob_from_file, AccessReply, AccessStep, BlobAccess, BlobUse, KeepReply,
    KeepStep, Served,
};
use coven_core::blob::cache::{
    cache_budget_state_key, cached_locator_paths, remote_cache_paths, remote_stored_ref, resolve_source,
    verify_external_facts, verify_local_file_identity, BlobCacheError, BlobSource, BlobStream,
    BlobStreamSource, RangeRead,
};
use coven_core::blob::evict::{evict_to_budget, CacheFile, EvictionPlan};
use coven_core::blob::local_files::{
    drop_blob, read, read_range, store, LocalBlobError, LocalReadReply, LocalReadStep,
};
use coven_core::blob::locator::{BlobLocator, ExactObjectRef, RemoteAudience, StoredBlobRef};
use coven_core::blob::make_local::PublishReply;
use coven_core::blob::{BlobRef, BlobScope, CacheFill, Provenance};
use coven_core::database::DbError;
use coven_core::digest::{KeyFingerprint, ObjectHash};
use coven_core::outbox::{ExternalBlob, RowBlobAuthority, RowBlobRef};
use coven_core::storage::StorageError;
use coven_core::store_dir::{PathTokenError, StoreDir};

fn store_dir() -> StoreDir {
    StoreDir::new("/store".to_string())
}

fn hash() -> ObjectHash {
    ObjectHash::digest(b"abc")
}

fn locator(sealed: bool) -> BlobLocator {
    if sealed {
        BlobLocator::opaque(
            "photos".to_string(),
            "photoaaa".to_string(),
            "11".repeat(32),
            RemoteAudience::Store,
            BlobScope::Master,
            KeyFingerprint::from_bytes([4; 8]),
            3,
            hash(),
        )
        .unwrap()
    } else {
        BlobLocator::browsable(
            "photos".to_string(),
            "photoaaa".to_string(),
            "11".repeat(32),
            "cv/photo.jpg".to_string(),
            3,
            hash(),
        )
        .unwrap()
    }
}

fn stored(sealed: bool) -> StoredBlobRef {
    let locator = locator(sealed);
    StoredBlobRef {
        object: ExactObjectRef {
            logical_key: locator.semantic_key().to_string(),
            stored_size: 19,
            object_id: ObjectHash::digest(b"object"),
        },
        locator,
    }
}

fn row(provenance: Provenance, stored: Option<StoredBlobRef>) -> RowBlobRef {
    RowBlobRef {
        table: "note_photos".to_string(),
        row_id: "photoaaa".to_string(),
        row_stamp: "0000000001000-0000-A".to_string(),
        column: "id".to_string(),
        blob: BlobRef {
            namespace: "photos".to_string(),
            id: "photoaaa".to_string(),
            scope: BlobScope::Master,
            cloud_path: None,
            provenance,
            fill: CacheFill::CacheLazy,
        },
        plaintext_size: 3,
        plaintext_hash: hash(),
        authority: if stored.is_some() {
            RowBlobAuthority::Remote(RemoteAudience::Store)
        } else {
            RowBlobAuthority::Local
        },
        stored,
    }
}

fn remote(sealed: bool) -> RowBlobRef {
    row(Provenance::HostProvided, Some(stored(sealed)))
}

fn pinned_path(sealed: bool) -> String {
    remote_cache_paths(&store_dir(), &remote(sealed)).unwrap().0
}

fn cache_path(sealed: bool) -> String {
    remote_cache_paths(&store_dir(), &remote(sealed)).unwrap().1
}

fn begin(row: RowBlobRef, purpose: BlobUse, connected: bool) -> BlobAccess {
    let access = BlobAccess::start(store_dir(), row, purpose, connected);
    assert!(matches!(access.step, AccessStep::Validate));
    access.next(AccessReply::Row(Ok(())))
}

fn no() -> AccessReply {
    AccessReply::Exists(Ok(false))
}

fn yes() -> AccessReply {
    AccessReply::Exists(Ok(true))
}

fn exact() -> AccessReply {
    AccessReply::Facts(Ok((3, hash())))
}

fn staged() -> String {
    "/store/.tmp.1".to_string()
}

fn copied() -> AccessReply {
    AccessReply::Copied(Ok((staged(), 3, hash())))
}

fn altered() -> AccessReply {
    AccessReply::Facts(Ok((3, ObjectHash::digest(b"xyz"))))
}

fn valid() -> AccessReply {
    AccessReply::Row(Ok(()))
}

fn served(access: BlobAccess) -> Served {
    match access.step {
        AccessStep::Done { served } => served,
        other => panic!("{other:?}"),
    }
}

fn failure(access: BlobAccess) -> BlobCacheError {
    match access.step {
        AccessStep::Failed { error } => error,
        other => panic!("{other:?}"),
    }
}

#[test]
fn cached_copies_are_named_by_their_locator() {
    let name = locator(true).locator_hash().to_text();
    let sharded = format!("{}/{}/{}", &name[0..2], &name[2..4], name);
    assert_eq!(pinned_path(true), format!("/store/storage/pinned/photos/{sharded}"));
    assert_eq!(cache_path(true), format!("/store/storage/cache/photos/{sharded}"));
    assert_ne!(cache_path(true), cache_path(false));
    assert_eq!(
        cached_locator_paths(&store_dir(), "photos", locator(true).locator_hash()).unwrap(),
        (pinned_path(true), cache_path(true))
    );
    assert!(matches!(
        cached_locator_paths(&store_dir(), "", locator(true).locator_hash()),
        Err(BlobCacheError::Path(PathTokenError::Empty))
    ));
}

#[test]
fn each_namespace_has_its_own_budget_key() {
    assert_eq!(cache_budget_state_key("covers"), "cache_budget:covers");
    assert_ne!(cache_budget_state_key("covers"), cache_budget_state_key("release_files"));
}

#[test]
fn a_source_goes_by_authority_and_then_by_provenance() {
    assert_eq!(resolve_source(&remote(true)), BlobSource::Cache);
    assert_eq!(resolve_source(&row(Provenance::UserProvided, None)), BlobSource::External);
    assert_eq!(resolve_source(&row(Provenance::HostProvided, None)), BlobSource::LocalStore);
    let mut pending = row(Provenance::UserProvided, None);
    pending.authority = RowBlobAuthority::PendingRemote(RemoteAudience::Store);
    assert_eq!(resolve_source(&pending), BlobSource::External);
    assert!(matches!(
        remote_stored_ref(&pending),
        Err(BlobCacheError::LocalityUnresolved { .. })
    ));
}

#[test]
fn a_cached_copy_is_verified_and_served() {
    let access = begin(remote(true), BlobUse::Read, false);
    let access = access.next(no()).next(yes());
    assert!(matches!(&access.step, AccessStep::ServeFile { path } if *path == cache_path(true)));
    let access = access.next(exact());
    assert!(matches!(access.step, AccessStep::ValidateAtEnd { .. }));
    assert_eq!(served(access.next(valid())), Served::Contents);
}

#[test]
fn an_altered_copy_fails_loudly() {
    let access = begin(remote(true), BlobUse::Read, true).next(yes());
    assert!(matches!(&access.step, AccessStep::ServeFile { path } if *path == pinned_path(true)));
    let error = failure(access.next(altered()));
    assert_eq!(
        error.message(),
        format!(
            "local blob {} has size/hash 3/{}, expected 3/{}",
            pinned_path(true),
            ObjectHash::digest(b"xyz").to_text(),
            hash().to_text()
        )
    );
}

#[test]
fn a_whole_read_of_an_uncached_blob_fills_the_cache() {
    let access = begin(remote(true), BlobUse::Read, true).next(no()).next(no());
    assert!(matches!(&access.step, AccessStep::Download { dest } if *dest == cache_path(true)));
    let access = access.next(AccessReply::Downloaded(Ok(staged())));
    let access = access.next(AccessReply::Disk(Ok(())));
    assert!(matches!(access.step, AccessStep::ValidateForPublish { .. }));
    let access = access.next(valid()).next(AccessReply::Published(PublishReply::Published));
    assert!(matches!(&access.step, AccessStep::Evict { protect, .. } if *protect == cache_path(true)));
    let access = access.next(AccessReply::Evicted(Ok(())));
    assert_eq!(served(access.next(valid())), Served::Contents);
}

#[test]
fn an_uncached_remote_blob_needs_a_cloud_home() {
    let access = begin(remote(true), BlobUse::Read, false).next(no()).next(no());
    assert!(matches!(failure(access), BlobCacheError::NoCloudHome));
    let pin = begin(remote(true), BlobUse::Pin, false)
        .next(no())
        .next(no())
        .next(no())
        .next(valid())
        .next(no())
        .next(no());
    assert_eq!(
        failure(pin).message(),
        "no cloud home connected to read a Remote blob"
    );
}

#[test]
fn opening_a_sealed_blob_reads_ranges_and_fills_nothing() {
    let access = begin(remote(true), BlobUse::Open, true).next(no()).next(no());
    assert!(matches!(access.step, AccessStep::OpenRange));
    let access = access.next(AccessReply::RangeReader(Ok(3)));
    assert_eq!(
        served(access.next(valid())),
        Served::Stream { source: BlobStreamSource::Remote, size: 3 }
    );
}

#[test]
fn opening_a_readable_blob_verifies_all_of_it_first() {
    let access = begin(remote(false), BlobUse::Open, true).next(no()).next(no());
    assert!(matches!(access.step, AccessStep::Download { .. }));
    let access = access.next(AccessReply::Downloaded(Ok(staged())));
    assert!(matches!(access.step, AccessStep::MeasureStaged { .. }));
    let access = access.next(exact());
    assert!(matches!(access.step, AccessStep::OpenStaged { .. }));
    let access = access.next(AccessReply::Opened(Ok(3))).next(valid());
    let access = access.next(AccessReply::Published(PublishReply::Published));
    let access = access.next(AccessReply::Evicted(Ok(()))).next(valid());
    assert_eq!(served(access), Served::Stream { source: BlobStreamSource::Local, size: 3 });
}

#[test]
fn opening_a_cached_blob_hashes_nothing() {
    let access = begin(remote(true), BlobUse::Open, true).next(yes());
    let access = access.next(AccessReply::Opened(Ok(3))).next(valid());
    assert_eq!(served(access), Served::Stream { source: BlobStreamSource::Local, size: 3 });
}

#[test]
fn a_users_file_is_served_without_the_cloud() {
    let file = || ExternalBlob { path: "/user/photo.jpg".to_string(), size: 3 };
    let looked_up = |purpose| {
        let access = begin(row(Provenance::UserProvided, None), purpose, true);
        assert!(matches!(access.step, AccessStep::LookUpExternal));
        access.next(AccessReply::External(Ok(Some(file()))))
    };
    let read = looked_up(BlobUse::Read).next(exact()).next(valid());
    assert_eq!(served(read), Served::Contents);
    let opened = looked_up(BlobUse::Open).next(AccessReply::Opened(Ok(3))).next(valid());
    assert_eq!(served(opened), Served::Stream { source: BlobStreamSource::Local, size: 3 });
    let materialized = looked_up(BlobUse::Materialize).next(exact()).next(valid());
    assert_eq!(served(materialized), Served::Placed);

    let gone = looked_up(BlobUse::Read).next(AccessReply::Facts(Err("no such file".to_string())));
    assert_eq!(
        failure(gone).message(),
        "external blob photoaaa could not be read at /user/photo.jpg: no such file"
    );
    let shorter = looked_up(BlobUse::Read).next(AccessReply::Facts(Ok((2, hash()))));
    assert_eq!(
        failure(shorter).message(),
        "external blob photoaaa at /user/photo.jpg no longer matches its registered size"
    );
    let short_open = looked_up(BlobUse::Open).next(AccessReply::Opened(Ok(2)));
    assert!(matches!(failure(short_open), BlobCacheError::ExternalSizeMismatch { .. }));
    let edited = looked_up(BlobUse::Read).next(altered());
    assert!(matches!(failure(edited), BlobCacheError::LocalIntegrity { .. }));
    let unregistered = begin(row(Provenance::UserProvided, None), BlobUse::Read, true)
        .next(AccessReply::External(Ok(None)));
    assert_eq!(
        failure(unregistered).message(),
        "user-provided Local blob photoaaa has no registered external ref"
    );
}

#[test]
fn a_local_blob_is_read_from_the_local_store_alone() {
    let access = begin(row(Provenance::HostProvided, None), BlobUse::Read, true);
    assert!(matches!(&access.step, AccessStep::ProbeLocal { path }
        if path == "/store/storage/local/photos/photoaaa"));
    let present = access.next(yes()).next(exact()).next(valid());
    assert_eq!(served(present), Served::Contents);
    let absent = begin(row(Provenance::HostProvided, None), BlobUse::Read, true).next(no());
    assert_eq!(
        failure(absent).message(),
        "local blob photos/photoaaa is gated Local but absent from the local store"
    );
    let mut unsafe_row = row(Provenance::HostProvided, None);
    unsafe_row.blob.id = "../up".to_string();
    assert!(matches!(
        failure(begin(unsafe_row, BlobUse::Read, true)),
        BlobCacheError::Path(PathTokenError::Forbidden)
    ));
}

#[test]
fn pinning_moves_a_cached_copy_and_keeps_one_that_is_there() {
    let kept = begin(remote(true), BlobUse::Pin, true).next(yes()).next(exact());
    assert_eq!(served(kept), Served::Placed);

    let moved = begin(remote(true), BlobUse::Pin, true).next(no()).next(no()).next(yes());
    assert!(matches!(moved.step, AccessStep::CheckCached { .. }));
    let moved = moved.next(exact());
    assert!(matches!(&moved.step, AccessStep::CopyForMove { from, dest }
        if *from == cache_path(true) && *dest == pinned_path(true)));
    let moved = moved.next(copied()).next(valid());
    assert!(matches!(moved.step, AccessStep::Publish { .. }));
    let moved = moved.next(AccessReply::Published(PublishReply::Published));
    assert!(matches!(&moved.step, AccessStep::RemoveSource { from, .. } if *from == cache_path(true)));
    let moved = moved.next(AccessReply::Disk(Ok(()))).next(AccessReply::Disk(Ok(())));
    assert_eq!(served(moved), Served::Placed);

    let fetched = begin(remote(true), BlobUse::Pin, true)
        .next(no())
        .next(no())
        .next(no())
        .next(valid())
        .next(no())
        .next(no());
    assert!(matches!(&fetched.step, AccessStep::Download { dest } if *dest == pinned_path(true)));
    let fetched = fetched.next(AccessReply::Downloaded(Ok(staged()))).next(valid()).next(exact());
    let fetched = fetched.next(valid()).next(AccessReply::Published(PublishReply::Published));
    assert_eq!(served(fetched), Served::Placed);
}

#[test]
fn unpinning_demotes_a_kept_copy_and_leaves_others() {
    let demoted = begin(remote(true), BlobUse::Unpin, false).next(yes());
    assert!(matches!(&demoted.step, AccessStep::CopyForMove { from, dest }
        if *from == pinned_path(true) && *dest == cache_path(true)));
    let nothing = begin(remote(true), BlobUse::Unpin, false).next(no());
    assert_eq!(served(nothing), Served::Absent);
    let pinned = begin(remote(true), BlobUse::IsPinned, false).next(yes()).next(exact());
    assert_eq!(served(pinned), Served::Placed);
    let unpinned = begin(remote(true), BlobUse::IsPinned, false).next(no());
    assert_eq!(served(unpinned), Served::Absent);
}

#[test]
fn an_occupied_path_is_accepted_only_when_exact() {
    let publishing = || {
        begin(remote(true), BlobUse::Unpin, false)
            .next(yes())
            .next(copied())
            .next(valid())
            .next(AccessReply::Published(PublishReply::DestinationExists(cache_path(true))))
    };
    assert!(matches!(publishing().step, AccessStep::MeasureOccupied { .. }));
    assert!(matches!(publishing().next(exact()).step, AccessStep::RemoveSource { .. }));
    assert!(matches!(
        failure(publishing().next(altered())),
        BlobCacheError::LocalIntegrity { .. }
    ));
}

#[test]
fn materializing_verifies_or_fetches() {
    let cached = begin(remote(true), BlobUse::Materialize, true)
        .next(yes())
        .next(exact())
        .next(valid());
    assert_eq!(served(cached), Served::Placed);
    let staged = begin(remote(true), BlobUse::Materialize, true)
        .next(no())
        .next(no())
        .next(valid())
        .next(no())
        .next(no())
        .next(AccessReply::Downloaded(Ok(staged())))
        .next(valid())
        .next(exact())
        .next(valid())
        .next(AccessReply::Published(PublishReply::Published));
    assert_eq!(served(staged), Served::Placed);
}

#[test]
fn a_copy_that_appeared_meanwhile_is_staged_from() {
    let staging = || {
        begin(remote(true), BlobUse::Materialize, false)
            .next(no())
            .next(no())
            .next(valid())
            .next(no())
            .next(yes())
    };
    assert!(matches!(&staging().step, AccessStep::CopyForStage { from, dest }
        if *from == cache_path(true) && *dest == cache_path(true)));
    let measured = staging().next(copied()).next(valid());
    assert!(matches!(&measured.step, AccessStep::MeasureStaged { staged, .. }
        if staged == "/store/.tmp.1"));
    match failure(measured.next(altered())) {
        BlobCacheError::LocalIntegrity { path, .. } => assert_eq!(path, "/store/.tmp.1"),
        other => panic!("{other:?}"),
    }
    let torn = staging().next(AccessReply::Copied(Ok((staged(), 2, hash()))));
    match failure(torn) {
        BlobCacheError::LocalIntegrity { path, .. } => assert_eq!(path, cache_path(true)),
        other => panic!("{other:?}"),
    }
}

#[test]
fn plaintext_is_staged_beside_a_chosen_file() {
    let staging = |connected| {
        BlobAccess::stage(store_dir(), remote(true), connected, "/user/photo.jpg".to_string())
            .next(valid())
    };
    assert!(matches!(&staging(true).step, AccessStep::ProbePinnedForStage { dest, pinned, .. }
        if dest == "/user/photo.jpg" && *pinned == pinned_path(true)));
    let cached = staging(false).next(yes());
    assert!(matches!(&cached.step, AccessStep::CopyForStage { from, dest }
        if *from == pinned_path(true) && dest == "/user/photo.jpg"));
    assert_eq!(served(cached.next(copied()).next(valid())), Served::Staged);
    let fetched = staging(true).next(no()).next(no());
    assert!(matches!(&fetched.step, AccessStep::Download { dest } if dest == "/user/photo.jpg"));
    let fetched = fetched.next(AccessReply::Downloaded(Ok(staged()))).next(valid());
    assert_eq!(served(fetched), Served::Staged);
    assert!(matches!(
        failure(staging(false).next(no()).next(no())),
        BlobCacheError::NoCloudHome
    ));
}

#[test]
fn dropping_removes_both_copies() {
    let access = begin(remote(true), BlobUse::Drop, false);
    assert!(matches!(&access.step, AccessStep::DropPinned { pinned, .. } if *pinned == pinned_path(true)));
    let access = access.next(AccessReply::Disk(Ok(())));
    assert!(matches!(&access.step, AccessStep::DropCached { cache } if *cache == cache_path(true)));
    assert_eq!(served(access.next(AccessReply::Disk(Ok(())))), Served::Dropped);
}

#[test]
fn outside_failures_keep_their_kind() {
    let invalid = BlobAccess::start(store_dir(), remote(true), BlobUse::Read, true)
        .next(AccessReply::Row(Err(DbError::Message("row moved".to_string()))));
    assert_eq!(failure(invalid).message(), "blob metadata error: database error: row moved");
    let blind = begin(remote(true), BlobUse::Read, true)
        .next(AccessReply::Exists(Err("stat".to_string())));
    assert_eq!(failure(blind).message(), "blob cache I/O error: stat");
    let offline = begin(remote(true), BlobUse::Read, true)
        .next(no())
        .next(no())
        .next(AccessReply::Downloaded(Err(StorageError::Transport("down".to_string()))));
    assert_eq!(failure(offline).message(), "blob cache storage error: transport: down");
    let mut unresolved = remote(true);
    unresolved.stored = None;
    assert_eq!(
        failure(begin(unresolved, BlobUse::Read, true)).message(),
        "cannot resolve locality for blob photoaaa: no locality root determines where it lives"
    );
    assert_eq!(
        BlobCacheError::StorageSetup("no key".to_string()).message(),
        "sync storage setup failed: no key"
    );
    assert_eq!(
        BlobCacheError::from_local(LocalBlobError::Path(PathTokenError::Empty)).message(),
        "blob path error: path token is empty"
    );
}

#[test]
fn facts_are_checked_one_by_one() {
    let local = remote(true);
    let path = "/p".to_string();
    assert!(verify_local_file_identity(&path, &local, 3, hash()).is_ok());
    assert!(verify_local_file_identity(&path, &local, 4, hash()).is_err());
    let file = ExternalBlob { path: "/p".to_string(), size: 3 };
    assert!(verify_external_facts(&local, &file, 3, hash()).is_ok());
    let drifted = ExternalBlob { path: "/p".to_string(), size: 4 };
    assert!(matches!(
        verify_external_facts(&local, &drifted, 3, hash()),
        Err(BlobCacheError::ExternalSizeMismatch { .. })
    ));
}

#[test]
fn a_range_past_the_blob_is_an_error() {
    let stream = BlobStream {
        blob: remote(true).blob,
        source: BlobStreamSource::Local,
        size: 10,
    };
    assert_eq!(stream.plaintext_size(), 10);
    assert_eq!(stream.read_at(20, 0).unwrap(), RangeRead::Empty);
    assert_eq!(stream.read_at(4, 6).unwrap(), RangeRead::Read { offset: 4, len: 6 });
    assert_eq!(
        stream.read_at(4, 7).unwrap_err().message(),
        "blob cache I/O error: blob range 4..11 for photoaaa exceeds blob size 10"
    );
    assert_eq!(
        stream.read_at(u64::MAX, 2).unwrap_err().message(),
        format!(
            "blob cache I/O error: blob range overflow for photoaaa: offset={}, len=2",
            u64::MAX
        )
    );
}

#[test]
fn an_uploaded_blob_is_kept_or_cached() {
    let kept = populate_pinned(&store_dir(), &stored(true), "/user/photo.jpg".to_string()).unwrap();
    assert!(matches!(&kept.step, KeepStep::Copy { from, dest }
        if from == "/user/photo.jpg" && *dest == pinned_path(true)));
    let kept = kept.next(KeepReply::Copied(Ok(staged()))).next(KeepReply::Facts(Ok((3, hash()))));
    assert!(matches!(kept.step, KeepStep::Publish { .. }));
    let kept = kept.next(KeepReply::Published(PublishReply::Published));
    assert!(matches!(kept.step, KeepStep::Done));

    let cached = write_blob_from_file(&store_dir(), &stored(true), "/f".to_string()).unwrap();
    let cached = cached.next(KeepReply::Copied(Ok(staged()))).next(KeepReply::Facts(Ok((3, hash()))));
    let cached = cached.next(KeepReply::Published(PublishReply::DestinationExists(cache_path(true))));
    let cached = cached.next(KeepReply::Facts(Ok((3, hash()))));
    assert!(matches!(&cached.step, KeepStep::Evict { protect } if *protect == cache_path(true)));
    assert!(matches!(cached.next(KeepReply::Evicted(Ok(()))).step, KeepStep::Done));

    let torn = write_blob_from_file(&store_dir(), &stored(true), "/f".to_string())
        .unwrap()
        .next(KeepReply::Copied(Ok(staged())))
        .next(KeepReply::Facts(Ok((2, hash()))));
    assert!(matches!(
        torn.step,
        KeepStep::Failed { error: BlobCacheError::LocalIntegrity { .. } }
    ));
}

fn file(path: &str, recency: u64, size: u64) -> CacheFile {
    CacheFile { path: path.to_string(), recency, size }
}

fn evicted(plan: &EvictionPlan) -> Vec<&str> {
    plan.evict.iter().map(|file| file.path.as_str()).collect()
}

#[test]
fn eviction_takes_the_oldest_until_the_rest_fits() {
    let files = vec![file("/c/new", 3000, 100), file("/c/old", 1000, 100), file("/c/mid", 2000, 100)];
    let plan = evict_to_budget(Some(150), files, None).unwrap();
    assert_eq!(evicted(&plan), vec!["/c/old", "/c/mid"]);
    assert_eq!(plan.left, 100);
}

#[test]
fn nothing_is_evicted_without_a_budget_or_within_it() {
    assert!(evict_to_budget(None, vec![file("/c/a", 1, 100)], None).is_none());
    let plan = evict_to_budget(Some(100), vec![file("/c/a", 1, 100)], None).unwrap();
    assert!(plan.evict.is_empty());
    assert_eq!(plan.left, 100);
}

#[test]
fn the_protected_file_survives_even_when_it_is_the_oldest() {
    let files = vec![file("/c/kept", 1, 100), file("/c/other", 2, 100)];
    let plan = evict_to_budget(Some(100), files, Some("/c/kept")).unwrap();
    assert_eq!(evicted(&plan), vec!["/c/other"]);
    assert_eq!(plan.left, 100);
}

#[test]
fn a_protected_file_over_the_budget_is_left_over_it() {
    let files = vec![file("/c/huge", 1, 500), file("/c/other", 2, 100)];
    let plan = evict_to_budget(Some(100), files, Some("/c/huge")).unwrap();
    assert_eq!(evicted(&plan), vec!["/c/other"]);
    assert_eq!(plan.left, 500);
}

#[test]
fn files_of_one_age_go_in_the_order_they_were_listed() {
    let files = vec![file("/c/b", 1, 10), file("/c/a", 1, 10), file("/c/c", 1, 10)];
    let plan = evict_to_budget(Some(10), files, None).unwrap();
    assert_eq!(evicted(&plan), vec!["/c/b", "/c/a"]);
}

#[test]
fn a_file_still_being_written_is_neither_counted_nor_evicted() {
    let files = vec![file("/c/ab/.tmp.1234", 1000, 100), file("/c/keep0aaa", 2000, 100)];
    let plan = evict_to_budget(Some(100), files, None).unwrap();
    assert!(plan.evict.is_empty());
    assert_eq!(plan.left, 100);
}

#[test]
fn a_local_read_checks_the_length_first() {
    let reading = || read(&store_dir(), "photos", "photoaaa", 3).unwrap();
    assert_eq!(reading().path, "/store/storage/local/photos/photoaaa");
    let whole = reading().next(LocalReadReply::Exists(Ok(true)));
    assert!(matches!(whole.step, LocalReadStep::MeasureLength));
    let whole = whole.next(LocalReadReply::Length(Ok(3)));
    assert!(matches!(whole.step, LocalReadStep::ReadFile));
    let whole = whole.next(LocalReadReply::Bytes(Ok(())));
    assert!(matches!(whole.step, LocalReadStep::Done { found: true }));
    let absent = reading().next(LocalReadReply::Exists(Ok(false)));
    assert!(matches!(absent.step, LocalReadStep::Done { found: false }));
    let short = reading()
        .next(LocalReadReply::Exists(Ok(true)))
        .next(LocalReadReply::Length(Ok(2)));
    match short.step {
        LocalReadStep::Failed { error } => assert_eq!(
            error.message(),
            "local blob I/O error: local blob /store/storage/local/photos/photoaaa has 2 bytes, expected 3"
        ),
        other => panic!("{other:?}"),
    }
    let ranged = read_range(&store_dir(), "photos", "photoaaa", 3, 1, 2).unwrap();
    assert_eq!(ranged.range, Some((1, 2)));
}

#[test]
fn unsafe_names_have_no_place_in_the_local_store() {
    assert_eq!(
        store(&store_dir(), "a/b", "photoaaa").unwrap_err().message(),
        "local blob path error: path token holds a separator or a NUL"
    );
    assert!(drop_blob(&store_dir(), "photos", "..").is_err());
    assert_eq!(
        drop_blob(&store_dir(), "photos", "photoaaa").unwrap(),
        "/store/storage/local/photos/photoaaa"
    );
}

#[test]
fn folders_keep_namespaces_and_kept_copies_apart() {
    let dir = store_dir();
    let covers = dir.cache_namespace_dir("covers").unwrap();
    let key = ObjectHash::digest(b"k");
    let in_covers = dir.cache_blob_path("covers", key).unwrap();
    let in_audio = dir.cache_blob_path("audio", key).unwrap();
    let kept = dir.pinned_blob_path("covers", key).unwrap();
    assert!(in_covers.starts_with(&format!("{covers}/")));
    assert!(!in_audio.starts_with(&format!("{covers}/")));
    assert!(!kept.starts_with(&format!("{}/", dir.cache_dir())));
    assert_eq!(
        dir.outbound_blob_spool_path(key),
        format!("/store/storage/outbound/{}", key.to_text())
    );
    assert_eq!(StoreDir::id_shard("abcdef").unwrap(), "ab/cd/abcdef");
    assert!(StoreDir::id_shard("abc").is_err());
}
