//! One use of a row's blob on this device: reading it whole, opening it for ranges,
//! materializing it, staging it elsewhere, pinning and unpinning it, asking whether it is
//! pinned, dropping its cached copies.
//!
//! [`BlobAccess`] decides it: its step names the one operation to perform next, and
//! [`BlobAccess::next`] takes the operation's reply. The row is validated before anything
//! is looked at, and again before anything is published or handed out, so that what was
//! done was done for the row's present version.

use vstd::prelude::*;
use vstd::string::*;

use crate::blob::cache::{cached_paths, external_fault, identity_fault, remote_cache_paths, resolve_source, row_paths, source_of, verify_external_facts, verify_local_file_identity, verify_local_file_identity_values, BlobCacheError, BlobSource, BlobStreamSource};
use crate::blob::locator::StoredBlobRef;
use crate::blob::make_local::PublishReply;
use crate::database::DbError;
use crate::digest::{sha256, ObjectHash};
use crate::outbox::{ExternalBlob, RowBlobRef};
use crate::storage::StorageError;
use crate::store_dir::{cache_path_text, first_fault, local_path_text, pinned_path_text, token_fault, StoreDir};

verus! {

/// What a blob is wanted for.
#[derive(Debug, Clone, Copy, PartialEq, Eq, Structural)]
pub enum BlobUse {
    /// Its whole contents.
    Read,
    /// A stream that serves ranges of it.
    Open,
    /// Its exact plaintext, durable on this device.
    Materialize,
    /// A kept copy, exempt from eviction.
    Pin,
    /// Its kept copy turned evictable.
    Unpin,
    /// To know whether a kept copy is there.
    IsPinned,
    /// Its cached copies gone.
    Drop,
    /// Its verified plaintext, staged beside a file of the caller's choice.
    Stage,
}

/// What an access came to.
#[derive(Debug, Clone, Copy, PartialEq, Eq, Structural)]
pub enum Served {
    /// The contents were read.
    Contents,
    /// A source was opened and ranges are served from it.
    Stream { source: BlobStreamSource, size: u64 },
    /// The file is where it was wanted.
    Placed,
    /// There is no such file.
    Absent,
    /// The files are gone.
    Dropped,
    /// The plaintext is staged; the caller gives it its name.
    Staged,
}

/// The operation that an access performs next.
#[derive(Debug)]
pub enum AccessStep {
    /// Check that the row still has this version.
    Validate,
    /// Look up the file that is registered for the row.
    LookUpExternal,
    /// Read, open or measure the user's file.
    ServeExternal { file: ExternalBlob },
    /// Look whether the local store holds the blob.
    ProbeLocal { path: String },
    /// Look whether a kept copy is there.
    ProbePinned { pinned: String, cache: String },
    /// Look once more whether a kept copy is there, before the evictable one.
    ReprobePinned { pinned: String, cache: String },
    /// Look whether an evictable copy is there.
    ProbeCache { pinned: String, cache: String },
    /// Read, open or measure a file of this device.
    ServeFile { path: String },
    /// Measure the kept copy.
    CheckPinned { pinned: String },
    /// Measure the evictable copy, to keep it.
    CheckCached { pinned: String, cache: String },
    /// Open the cloud object for ranges.
    OpenRange,
    /// Download the blob's verified plaintext beside its destination.
    Download { dest: String },
    /// Check the row before the destination is filled.
    ValidateForStage { dest: String, pinned: String, cache: String },
    /// Look whether a kept copy can be the source.
    ProbePinnedForStage { dest: String, pinned: String, cache: String },
    /// Look whether an evictable copy can be the source.
    ProbeCacheForStage { dest: String, cache: String },
    /// Copy a cached file beside its destination and measure the copy.
    CopyForStage { from: String, dest: String },
    /// Check the row once its plaintext is staged.
    ValidateStaged { dest: String, staged: String },
    /// Read what is staged.
    ReadStaged { dest: String, staged: String },
    /// Measure what is staged.
    MeasureStaged { dest: String, staged: String },
    /// Open what is staged.
    OpenStaged { dest: String, staged: String },
    /// Copy a file to the other cache folder and measure the copy.
    CopyForMove { from: String, dest: String },
    /// Check the row just before publication.
    ValidateForPublish { dest: String, moved: Option<String>, served: Served },
    /// Give the staged file its name, replacing nothing.
    Publish { dest: String, moved: Option<String>, served: Served },
    /// Measure the file that was in the way.
    MeasureOccupied { path: String, dest: String, moved: Option<String>, served: Served },
    /// Remove the file that was moved.
    RemoveSource { from: String, served: Served },
    /// Make that removal durable.
    SyncSource { from: String, served: Served },
    /// Evict the namespace to its budget, sparing the file just published.
    Evict { protect: String, served: Served },
    /// Check the row before the result is handed out.
    ValidateAtEnd { served: Served },
    /// Remove the kept copy, if any.
    DropPinned { pinned: String, cache: String },
    /// Remove the evictable copy, if any.
    DropCached { cache: String },
    /// Done.
    Done { served: Served },
    /// Given up.
    Failed { error: BlobCacheError },
}

/// What an operation came to. A copy and a download say where the staged file is.
#[derive(Debug)]
pub enum AccessReply {
    Row(Result<(), DbError>),
    External(Result<Option<ExternalBlob>, DbError>),
    Exists(Result<bool, String>),
    Facts(Result<(u64, ObjectHash), String>),
    Opened(Result<u64, String>),
    RangeReader(Result<u64, StorageError>),
    Copied(Result<(String, u64, ObjectHash), String>),
    Downloaded(Result<String, StorageError>),
    Disk(Result<(), String>),
    Published(PublishReply),
    Evicted(Result<(), BlobCacheError>),
}

/// One use of a row's blob.
#[derive(Debug)]
pub struct BlobAccess {
    /// Where this device keeps its files.
    pub store_dir: StoreDir,
    /// The row whose blob is wanted.
    pub row: RowBlobRef,
    /// What it is wanted for.
    pub purpose: BlobUse,
    /// Whether a cloud home is connected.
    pub connected: bool,
    /// The file beside which plaintext is staged, where the caller chose one.
    pub target: Option<String>,
    /// What happens next.
    pub step: AccessStep,
}

impl BlobAccess {
    /// The same access at another step.
    pub open spec fn at(self, step: AccessStep) -> BlobAccess {
        BlobAccess { step, ..self }
    }

    /// The same access given up.
    pub open spec fn fails(self, error: BlobCacheError) -> BlobAccess {
        self.at(AccessStep::Failed { error })
    }

    /// What the access serves once its file was read or measured.
    pub open spec fn outcome(self) -> Served {
        match self.purpose {
            BlobUse::Read => Served::Contents,
            _ => Served::Placed,
        }
    }

    /// What a stat that says whether a file is there leads to.
    pub open spec fn probed(
        self,
        found: Result<bool, String>,
        hit: AccessStep,
        miss: AccessStep,
    ) -> BlobAccess {
        match found {
            Err(detail) => self.fails(BlobCacheError::Io(detail)),
            Ok(true) => self.at(hit),
            Ok(false) => self.at(miss),
        }
    }

    /// What a measurement of a file that must be the row's plaintext leads to.
    pub open spec fn measured(
        self,
        path: String,
        facts: Result<(u64, ObjectHash), String>,
        exact: AccessStep,
    ) -> BlobAccess {
        match facts {
            Err(detail) => self.fails(BlobCacheError::Io(detail)),
            Ok((size, hash)) => match identity_fault(
                path,
                self.row.plaintext_size,
                self.row.plaintext_hash,
                size,
                hash,
            ) {
                Some(fault) => self.fails(fault),
                None => self.at(exact),
            },
        }
    }

    /// What a check of the row leads to.
    pub open spec fn validated(self, checked: Result<(), DbError>, step: AccessStep) -> BlobAccess {
        match checked {
            Err(error) => self.fails(BlobCacheError::Metadata(error)),
            Ok(_) => self.at(step),
        }
    }

    /// What an operation on the disk leads to.
    pub open spec fn worked(self, done: Result<(), String>, step: AccessStep) -> BlobAccess {
        match done {
            Err(detail) => self.fails(BlobCacheError::Io(detail)),
            Ok(_) => self.at(step),
        }
    }

    /// What is done first with the places where a cached copy can be.
    pub open spec fn looked_up(self, pinned: String, cache: String) -> AccessStep {
        match self.purpose {
            BlobUse::Drop => AccessStep::DropPinned { pinned, cache },
            BlobUse::Stage => AccessStep::ProbePinnedForStage {
                dest: match self.target {
                    Some(target) => target,
                    None => cache,
                },
                pinned,
                cache,
            },
            _ => AccessStep::ProbePinned { pinned, cache },
        }
    }

    /// What the row's cached copies are looked up for first.
    pub open spec fn on_cached(self, next: BlobAccess) -> bool {
        exists|paths: Result<(String, String), BlobCacheError>| #[trigger]
            row_paths(self.store_dir@, self.row, paths) && next == (match paths {
                Err(error) => self.fails(error),
                Ok((pinned, cache)) => self.at(self.looked_up(pinned, cache)),
            })
    }

    /// Where a validated access looks first: the cached copies where it is about those,
    /// else the one source that holds the row's bytes.
    pub open spec fn dispatched(self, next: BlobAccess) -> bool {
        match self.purpose {
            BlobUse::Pin
            | BlobUse::Unpin
            | BlobUse::IsPinned
            | BlobUse::Drop
            | BlobUse::Stage => self.on_cached(next),
            _ => match source_of(self.row) {
                BlobSource::Cache => self.on_cached(next),
                BlobSource::External => next == self.at(AccessStep::LookUpExternal),
                BlobSource::LocalStore => match first_fault(
                    seq![self.row.blob.namespace@, self.row.blob.id@],
                ) {
                    Some(fault) => next == self.fails(BlobCacheError::Path(fault)),
                    None => next == self.at(next.step) && (
                    next.step matches AccessStep::ProbeLocal { path } && path@ == local_path_text(
                        self.store_dir@,
                        self.row.blob.namespace@,
                        self.row.blob.id@,
                    )),
                },
            },
        }
    }

    /// What a kept copy that is there leads to.
    pub open spec fn pinned_hit(self, pinned: String, cache: String) -> AccessStep {
        match self.purpose {
            BlobUse::Pin | BlobUse::IsPinned => AccessStep::CheckPinned { pinned },
            BlobUse::Unpin => AccessStep::CopyForMove { from: pinned, dest: cache },
            _ => AccessStep::ServeFile { path: pinned },
        }
    }

    /// What a kept copy that is not there leads to.
    pub open spec fn pinned_miss(self, pinned: String, cache: String) -> AccessStep {
        match self.purpose {
            BlobUse::Unpin | BlobUse::IsPinned => AccessStep::Done { served: Served::Absent },
            BlobUse::Pin => AccessStep::ReprobePinned { pinned, cache },
            _ => AccessStep::ProbeCache { pinned, cache },
        }
    }

    /// What an evictable copy that is there leads to.
    pub open spec fn cache_hit(self, pinned: String, cache: String) -> AccessStep {
        if self.purpose == BlobUse::Pin {
            AccessStep::CheckCached { pinned, cache }
        } else {
            AccessStep::ServeFile { path: cache }
        }
    }

    /// What an access does when this device has no copy of a remote blob.
    pub open spec fn cache_miss(self, pinned: String, cache: String) -> AccessStep {
        match self.purpose {
            BlobUse::Pin => AccessStep::ValidateForStage { dest: pinned, pinned, cache },
            BlobUse::Materialize => AccessStep::ValidateForStage { dest: cache, pinned, cache },
            _ => if !self.connected {
                AccessStep::Failed { error: BlobCacheError::NoCloudHome }
            } else if self.purpose == BlobUse::Open && self.sealed() {
                AccessStep::OpenRange
            } else {
                AccessStep::Download { dest: cache }
            },
        }
    }

    /// Whether the row's object is sealed, so that a range of it can be verified alone.
    pub open spec fn sealed(self) -> bool {
        self.row.stored matches Some(stored) && (stored@.locator is Opaque)
    }

    /// What a download leads to.
    pub open spec fn downloaded(self, dest: String, staged: String) -> AccessStep {
        match self.purpose {
            BlobUse::Read => AccessStep::ReadStaged { dest, staged },
            BlobUse::Open => AccessStep::MeasureStaged { dest, staged },
            _ => AccessStep::ValidateStaged { dest, staged },
        }
    }

    /// The facts that a copy was found to have.
    pub open spec fn copy_facts(copied: Result<(String, u64, ObjectHash), String>) -> Result<
        (u64, ObjectHash),
        String,
    > {
        match copied {
            Err(detail) => Err(detail),
            Ok((_, size, hash)) => Ok((size, hash)),
        }
    }

    /// What a published file leads to.
    pub open spec fn published(self, dest: String, moved: Option<String>, served: Served) -> AccessStep {
        match moved {
            Some(source) => AccessStep::RemoveSource { from: source, served },
            None => match self.purpose {
                BlobUse::Read | BlobUse::Open => AccessStep::Evict { protect: dest, served },
                _ => AccessStep::Done { served },
            },
        }
    }

    /// What follows on each reply. A reply that does not answer the step changes nothing.
    pub open spec fn follows(self, reply: AccessReply, next: BlobAccess) -> bool {
        match (self.step, reply) {
            (AccessStep::Validate, AccessReply::Row(checked)) => match checked {
                Err(error) => next == self.fails(BlobCacheError::Metadata(error)),
                Ok(_) => self.dispatched(next),
            },
            (AccessStep::LookUpExternal, AccessReply::External(found)) => next == (match found {
                Err(error) => self.fails(BlobCacheError::Metadata(error)),
                Ok(None) => self.fails(BlobCacheError::NoExternalRef { id: self.row.blob.id }),
                Ok(Some(file)) => self.at(AccessStep::ServeExternal { file }),
            }),
            (AccessStep::ServeExternal { file }, AccessReply::Facts(facts)) if self.purpose
                != BlobUse::Open => next == (match facts {
                Err(source) => self.fails(
                    BlobCacheError::ExternalMissing {
                        id: self.row.blob.id,
                        path: file.path,
                        source,
                    },
                ),
                Ok((size, hash)) => match external_fault(self.row, file, size, hash) {
                    Some(fault) => self.fails(fault),
                    None => self.at(AccessStep::ValidateAtEnd { served: self.outcome() }),
                },
            }),
            (AccessStep::ServeExternal { file }, AccessReply::Opened(opened)) if self.purpose
                == BlobUse::Open => next == (match opened {
                Err(source) => self.fails(
                    BlobCacheError::ExternalMissing {
                        id: self.row.blob.id,
                        path: file.path,
                        source,
                    },
                ),
                Ok(size) => if size != file.size || size != self.row.plaintext_size {
                    self.fails(
                        BlobCacheError::ExternalSizeMismatch {
                            id: self.row.blob.id,
                            path: file.path,
                        },
                    )
                } else {
                    self.at(
                        AccessStep::ValidateAtEnd {
                            served: Served::Stream { source: BlobStreamSource::Local, size },
                        },
                    )
                },
            }),
            (AccessStep::ProbeLocal { path }, AccessReply::Exists(found)) => next == self.probed(
                found,
                AccessStep::ServeFile { path },
                AccessStep::Failed {
                    error: BlobCacheError::NoLocalCopy {
                        namespace: self.row.blob.namespace,
                        id: self.row.blob.id,
                    },
                },
            ),
            (AccessStep::ProbePinned { pinned, cache }, AccessReply::Exists(found)) => next
                == self.probed(
                found,
                self.pinned_hit(pinned, cache),
                self.pinned_miss(pinned, cache),
            ),
            (AccessStep::ReprobePinned { pinned, cache }, AccessReply::Exists(found)) => next
                == self.probed(
                found,
                AccessStep::CheckPinned { pinned },
                AccessStep::ProbeCache { pinned, cache },
            ),
            (AccessStep::ProbeCache { pinned, cache }, AccessReply::Exists(found)) => next
                == self.probed(
                found,
                self.cache_hit(pinned, cache),
                self.cache_miss(pinned, cache),
            ),
            (AccessStep::ServeFile { path }, AccessReply::Facts(facts)) if self.purpose
                != BlobUse::Open => next == self.measured(
                path,
                facts,
                AccessStep::ValidateAtEnd { served: self.outcome() },
            ),
            (AccessStep::ServeFile { .. }, AccessReply::Opened(opened)) if self.purpose
                == BlobUse::Open => next == (match opened {
                Err(detail) => self.fails(BlobCacheError::Io(detail)),
                Ok(size) => self.at(
                    AccessStep::ValidateAtEnd {
                        served: Served::Stream { source: BlobStreamSource::Local, size },
                    },
                ),
            }),
            (AccessStep::CheckPinned { pinned }, AccessReply::Facts(facts)) => next
                == self.measured(pinned, facts, AccessStep::Done { served: Served::Placed }),
            (AccessStep::CheckCached { pinned, cache }, AccessReply::Facts(facts)) => next
                == self.measured(
                cache,
                facts,
                AccessStep::CopyForMove { from: cache, dest: pinned },
            ),
            (AccessStep::OpenRange, AccessReply::RangeReader(opened)) => next == (match opened {
                Err(error) => self.fails(BlobCacheError::Storage(error)),
                Ok(size) => self.at(
                    AccessStep::ValidateAtEnd {
                        served: Served::Stream { source: BlobStreamSource::Remote, size },
                    },
                ),
            }),
            (AccessStep::Download { dest }, AccessReply::Downloaded(done)) => next == (match done {
                Err(error) => self.fails(BlobCacheError::Storage(error)),
                Ok(staged) => self.at(self.downloaded(dest, staged)),
            }),
            (
                AccessStep::ValidateForStage { dest, pinned, cache },
                AccessReply::Row(checked),
            ) => next == self.validated(
                checked,
                AccessStep::ProbePinnedForStage { dest, pinned, cache },
            ),
            (
                AccessStep::ProbePinnedForStage { dest, pinned, cache },
                AccessReply::Exists(found),
            ) => next == self.probed(
                found,
                AccessStep::CopyForStage { from: pinned, dest },
                AccessStep::ProbeCacheForStage { dest, cache },
            ),
            (AccessStep::ProbeCacheForStage { dest, cache }, AccessReply::Exists(found)) => next
                == self.probed(
                found,
                AccessStep::CopyForStage { from: cache, dest },
                if self.connected {
                    AccessStep::Download { dest }
                } else {
                    AccessStep::Failed { error: BlobCacheError::NoCloudHome }
                },
            ),
            (AccessStep::CopyForStage { from, dest }, AccessReply::Copied(copied)) => next
                == self.measured(
                from,
                Self::copy_facts(copied),
                AccessStep::ValidateStaged { dest, staged: copied->Ok_0.0 },
            ),
            (AccessStep::ValidateStaged { dest, staged }, AccessReply::Row(checked)) => next
                == self.validated(
                checked,
                if self.purpose == BlobUse::Stage {
                    AccessStep::Done { served: Served::Staged }
                } else {
                    AccessStep::MeasureStaged { dest, staged }
                },
            ),
            (AccessStep::ReadStaged { dest, .. }, AccessReply::Disk(done)) => next == self.worked(
                done,
                AccessStep::ValidateForPublish { dest, moved: None, served: Served::Contents },
            ),
            (AccessStep::MeasureStaged { dest, staged }, AccessReply::Facts(facts)) => next
                == self.measured(
                staged,
                facts,
                if self.purpose == BlobUse::Open {
                    AccessStep::OpenStaged { dest, staged }
                } else {
                    AccessStep::ValidateForPublish { dest, moved: None, served: Served::Placed }
                },
            ),
            (AccessStep::OpenStaged { dest, .. }, AccessReply::Opened(opened)) => next == (
            match opened {
                Err(detail) => self.fails(BlobCacheError::Io(detail)),
                Ok(size) => self.at(
                    AccessStep::ValidateForPublish {
                        dest,
                        moved: None,
                        served: Served::Stream { source: BlobStreamSource::Local, size },
                    },
                ),
            }),
            (AccessStep::CopyForMove { from, dest }, AccessReply::Copied(copied)) => next
                == self.measured(
                from,
                Self::copy_facts(copied),
                AccessStep::ValidateForPublish { dest, moved: Some(from), served: Served::Placed },
            ),
            (
                AccessStep::ValidateForPublish { dest, moved, served },
                AccessReply::Row(checked),
            ) => next == self.validated(checked, AccessStep::Publish { dest, moved, served }),
            (AccessStep::Publish { dest, moved, served }, AccessReply::Published(outcome)) => next
                == (match outcome {
                PublishReply::Published => self.at(self.published(dest, moved, served)),
                PublishReply::DestinationExists(path) => self.at(
                    AccessStep::MeasureOccupied { path, dest, moved, served },
                ),
                PublishReply::Failed(detail) => self.fails(BlobCacheError::Io(detail)),
            }),
            (
                AccessStep::MeasureOccupied { path, dest, moved, served },
                AccessReply::Facts(facts),
            ) => next == self.measured(path, facts, self.published(dest, moved, served)),
            (AccessStep::RemoveSource { from, served }, AccessReply::Disk(done)) => next
                == self.worked(done, AccessStep::SyncSource { from, served }),
            (AccessStep::SyncSource { served, .. }, AccessReply::Disk(done)) => next
                == self.worked(done, AccessStep::Done { served }),
            (AccessStep::Evict { served, .. }, AccessReply::Evicted(done)) => next == (match done {
                Err(error) => self.fails(error),
                Ok(_) => self.at(AccessStep::ValidateAtEnd { served }),
            }),
            (AccessStep::ValidateAtEnd { served }, AccessReply::Row(checked)) => next
                == self.validated(checked, AccessStep::Done { served }),
            (AccessStep::DropPinned { cache, .. }, AccessReply::Disk(done)) => next == self.worked(
                done,
                AccessStep::DropCached { cache },
            ),
            (AccessStep::DropCached { .. }, AccessReply::Disk(done)) => next == self.worked(
                done,
                AccessStep::Done { served: Served::Dropped },
            ),
            _ => next == self,
        }
    }

    /// Starts an access.
    pub fn start(store_dir: StoreDir, row: RowBlobRef, purpose: BlobUse, connected: bool) -> (access:
        BlobAccess)
        ensures
            access == (BlobAccess {
                store_dir,
                row,
                purpose,
                connected,
                target: None,
                step: AccessStep::Validate,
            }),
    {
        BlobAccess { store_dir, row, purpose, connected, target: None, step: AccessStep::Validate }
    }

    /// Starts staging a row's verified plaintext beside `target`.
    pub fn stage(store_dir: StoreDir, row: RowBlobRef, connected: bool, target: String) -> (access:
        BlobAccess)
        ensures
            access == (BlobAccess {
                store_dir,
                row,
                purpose: BlobUse::Stage,
                connected,
                target: Some(target),
                step: AccessStep::Validate,
            }),
    {
        BlobAccess {
            store_dir,
            row,
            purpose: BlobUse::Stage,
            connected,
            target: Some(target),
            step: AccessStep::Validate,
        }
    }

    fn go(self, step: AccessStep) -> (next: BlobAccess)
        ensures
            next == self.at(step),
    {
        BlobAccess { step, ..self }
    }

    fn fail(self, error: BlobCacheError) -> (next: BlobAccess)
        ensures
            next == self.fails(error),
    {
        self.go(AccessStep::Failed { error })
    }

    fn probe(self, found: Result<bool, String>, hit: AccessStep, miss: AccessStep) -> (next:
        BlobAccess)
        ensures
            next == self.probed(found, hit, miss),
    {
        match found {
            Err(detail) => self.fail(BlobCacheError::Io(detail)),
            Ok(true) => self.go(hit),
            Ok(false) => self.go(miss),
        }
    }

    fn measure(self, path: String, facts: Result<(u64, ObjectHash), String>, exact: AccessStep) -> (next:
        BlobAccess)
        ensures
            next == self.measured(path, facts, exact),
    {
        match facts {
            Err(detail) => self.fail(BlobCacheError::Io(detail)),
            Ok((size, hash)) => match verify_local_file_identity(&path, &self.row, size, hash) {
                Err(fault) => self.fail(fault),
                Ok(_) => self.go(exact),
            },
        }
    }

    fn validate(self, checked: Result<(), DbError>, step: AccessStep) -> (next: BlobAccess)
        ensures
            next == self.validated(checked, step),
    {
        match checked {
            Err(error) => self.fail(BlobCacheError::Metadata(error)),
            Ok(_) => self.go(step),
        }
    }

    fn work(self, done: Result<(), String>, step: AccessStep) -> (next: BlobAccess)
        ensures
            next == self.worked(done, step),
    {
        match done {
            Err(detail) => self.fail(BlobCacheError::Io(detail)),
            Ok(_) => self.go(step),
        }
    }

    fn look_up_cached(self) -> (next: BlobAccess)
        ensures
            self.on_cached(next),
    {
        let paths = remote_cache_paths(&self.store_dir, &self.row);
        assert(row_paths(self.store_dir@, self.row, paths));
        match paths {
            Err(error) => self.fail(error),
            Ok((pinned, cache)) => match self.purpose {
                BlobUse::Drop => self.go(AccessStep::DropPinned { pinned, cache }),
                BlobUse::Stage => {
                    let dest: String = match &self.target {
                        Some(target) => target.clone(),
                        None => cache.clone(),
                    };
                    self.go(AccessStep::ProbePinnedForStage { dest, pinned, cache })
                },
                _ => self.go(AccessStep::ProbePinned { pinned, cache }),
            },
        }
    }

    fn dispatch(self) -> (next: BlobAccess)
        ensures
            self.dispatched(next),
    {
        match self.purpose {
            BlobUse::Pin
            | BlobUse::Unpin
            | BlobUse::IsPinned
            | BlobUse::Drop
            | BlobUse::Stage => self.look_up_cached(),
            _ => match resolve_source(&self.row) {
                BlobSource::Cache => self.look_up_cached(),
                BlobSource::External => self.go(AccessStep::LookUpExternal),
                BlobSource::LocalStore => {
                    let path = self.store_dir.local_blob_path(
                        self.row.blob.namespace.as_str(),
                        self.row.blob.id.as_str(),
                    );
                    match path {
                        Err(fault) => self.fail(BlobCacheError::Path(fault)),
                        Ok(path) => self.go(AccessStep::ProbeLocal { path }),
                    }
                },
            },
        }
    }

    fn after_external(self, file: ExternalBlob, facts: Result<(u64, ObjectHash), String>) -> (next:
        BlobAccess)
        requires
            self.purpose != BlobUse::Open,
        ensures
            self.at(AccessStep::ServeExternal { file }).follows(AccessReply::Facts(facts), next),
    {
        match facts {
            Err(source) => {
                let id = self.row.blob.id.clone();
                self.fail(BlobCacheError::ExternalMissing { id, path: file.path, source })
            },
            Ok((size, hash)) => match verify_external_facts(&self.row, &file, size, hash) {
                Err(fault) => self.fail(fault),
                Ok(_) => {
                    let served = self.served();
                    self.go(AccessStep::ValidateAtEnd { served })
                },
            },
        }
    }

    fn after_external_open(self, file: ExternalBlob, opened: Result<u64, String>) -> (next: BlobAccess)
        requires
            self.purpose == BlobUse::Open,
        ensures
            self.at(AccessStep::ServeExternal { file }).follows(AccessReply::Opened(opened), next),
    {
        let id = self.row.blob.id.clone();
        match opened {
            Err(source) => self.fail(
                BlobCacheError::ExternalMissing { id, path: file.path, source },
            ),
            Ok(size) => if size != file.size || size != self.row.plaintext_size {
                self.fail(BlobCacheError::ExternalSizeMismatch { id, path: file.path })
            } else {
                self.go(
                    AccessStep::ValidateAtEnd {
                        served: Served::Stream { source: BlobStreamSource::Local, size },
                    },
                )
            },
        }
    }

    fn served(&self) -> (served: Served)
        ensures
            served == self.outcome(),
    {
        match self.purpose {
            BlobUse::Read => Served::Contents,
            _ => Served::Placed,
        }
    }

    fn is_sealed(&self) -> (sealed: bool)
        ensures
            sealed == self.sealed(),
    {
        match &self.row.stored {
            Some(stored) => stored.locator.is_sealed(),
            None => false,
        }
    }

    fn after_pinned(self, found: Result<bool, String>, pinned: String, cache: String) -> (next:
        BlobAccess)
        ensures
            next == self.probed(
                found,
                self.pinned_hit(pinned, cache),
                self.pinned_miss(pinned, cache),
            ),
    {
        match found {
            Err(detail) => self.fail(BlobCacheError::Io(detail)),
            Ok(true) => match self.purpose {
                BlobUse::Pin | BlobUse::IsPinned => self.go(AccessStep::CheckPinned { pinned }),
                BlobUse::Unpin => self.go(AccessStep::CopyForMove { from: pinned, dest: cache }),
                _ => self.go(AccessStep::ServeFile { path: pinned }),
            },
            Ok(false) => match self.purpose {
                BlobUse::Unpin | BlobUse::IsPinned => self.go(
                    AccessStep::Done { served: Served::Absent },
                ),
                BlobUse::Pin => self.go(AccessStep::ReprobePinned { pinned, cache }),
                _ => self.go(AccessStep::ProbeCache { pinned, cache }),
            },
        }
    }

    fn after_cache(self, found: Result<bool, String>, pinned: String, cache: String) -> (next:
        BlobAccess)
        ensures
            next == self.probed(
                found,
                self.cache_hit(pinned, cache),
                self.cache_miss(pinned, cache),
            ),
    {
        match found {
            Err(detail) => self.fail(BlobCacheError::Io(detail)),
            Ok(true) => match self.purpose {
                BlobUse::Pin => self.go(AccessStep::CheckCached { pinned, cache }),
                _ => self.go(AccessStep::ServeFile { path: cache }),
            },
            Ok(false) => match self.purpose {
                BlobUse::Pin => {
                    let dest = pinned.clone();
                    self.go(AccessStep::ValidateForStage { dest, pinned, cache })
                },
                BlobUse::Materialize => {
                    let dest = cache.clone();
                    self.go(AccessStep::ValidateForStage { dest, pinned, cache })
                },
                _ => if !self.connected {
                    self.fail(BlobCacheError::NoCloudHome)
                } else if self.purpose == BlobUse::Open && self.is_sealed() {
                    self.go(AccessStep::OpenRange)
                } else {
                    self.go(AccessStep::Download { dest: cache })
                },
            },
        }
    }

    fn after_publish(&self, dest: String, moved: Option<String>, served: Served) -> (step: AccessStep)
        ensures
            step == self.published(dest, moved, served),
    {
        match moved {
            Some(source) => AccessStep::RemoveSource { from: source, served },
            None => match self.purpose {
                BlobUse::Read | BlobUse::Open => AccessStep::Evict { protect: dest, served },
                _ => AccessStep::Done { served },
            },
        }
    }

    /// Takes the reply to the present step and decides the next one.
    #[verifier::rlimit(40)]
    pub fn next(self, reply: AccessReply) -> (next: BlobAccess)
        ensures
            self.follows(reply, next),
    {
        let BlobAccess { store_dir, row, purpose, connected, target, step } = self;
        let here = BlobAccess {
            store_dir,
            row,
            purpose,
            connected,
            target,
            step: AccessStep::Validate,
        };
        match (step, reply) {
            (AccessStep::Validate, AccessReply::Row(checked)) => match checked {
                Err(error) => here.fail(BlobCacheError::Metadata(error)),
                Ok(_) => here.dispatch(),
            },
            (AccessStep::LookUpExternal, AccessReply::External(found)) => match found {
                Err(error) => here.fail(BlobCacheError::Metadata(error)),
                Ok(None) => {
                    let id = here.row.blob.id.clone();
                    here.fail(BlobCacheError::NoExternalRef { id })
                },
                Ok(Some(file)) => here.go(AccessStep::ServeExternal { file }),
            },
            (AccessStep::ServeExternal { file }, AccessReply::Facts(facts)) if purpose
                != BlobUse::Open => here.after_external(file, facts),
            (AccessStep::ServeExternal { file }, AccessReply::Opened(opened)) if purpose
                == BlobUse::Open => here.after_external_open(file, opened),
            (AccessStep::ProbeLocal { path }, AccessReply::Exists(found)) => {
                let namespace = here.row.blob.namespace.clone();
                let id = here.row.blob.id.clone();
                here.probe(
                    found,
                    AccessStep::ServeFile { path },
                    AccessStep::Failed { error: BlobCacheError::NoLocalCopy { namespace, id } },
                )
            },
            (AccessStep::ProbePinned { pinned, cache }, AccessReply::Exists(found)) => here.after_pinned(
                found,
                pinned,
                cache,
            ),
            (AccessStep::ReprobePinned { pinned, cache }, AccessReply::Exists(found)) => match found {
                Err(detail) => here.fail(BlobCacheError::Io(detail)),
                Ok(true) => here.go(AccessStep::CheckPinned { pinned }),
                Ok(false) => here.go(AccessStep::ProbeCache { pinned, cache }),
            },
            (AccessStep::ProbeCache { pinned, cache }, AccessReply::Exists(found)) => here.after_cache(
                found,
                pinned,
                cache,
            ),
            (AccessStep::ServeFile { path }, AccessReply::Facts(facts)) if purpose
                != BlobUse::Open => {
                let served = here.served();
                here.measure(path, facts, AccessStep::ValidateAtEnd { served })
            },
            (AccessStep::ServeFile { path }, AccessReply::Opened(opened)) if purpose
                == BlobUse::Open => match opened {
                Err(detail) => here.fail(BlobCacheError::Io(detail)),
                Ok(size) => here.go(
                    AccessStep::ValidateAtEnd {
                        served: Served::Stream { source: BlobStreamSource::Local, size },
                    },
                ),
            },
            (AccessStep::CheckPinned { pinned }, AccessReply::Facts(facts)) => here.measure(
                pinned,
                facts,
                AccessStep::Done { served: Served::Placed },
            ),
            (AccessStep::CheckCached { pinned, cache }, AccessReply::Facts(facts)) => {
                let from = cache.clone();
                here.measure(cache, facts, AccessStep::CopyForMove { from, dest: pinned })
            },
            (AccessStep::OpenRange, AccessReply::RangeReader(opened)) => match opened {
                Err(error) => here.fail(BlobCacheError::Storage(error)),
                Ok(size) => here.go(
                    AccessStep::ValidateAtEnd {
                        served: Served::Stream { source: BlobStreamSource::Remote, size },
                    },
                ),
            },
            (AccessStep::Download { dest }, AccessReply::Downloaded(done)) => match done {
                Err(error) => here.fail(BlobCacheError::Storage(error)),
                Ok(staged) => match here.purpose {
                    BlobUse::Read => here.go(AccessStep::ReadStaged { dest, staged }),
                    BlobUse::Open => here.go(AccessStep::MeasureStaged { dest, staged }),
                    _ => here.go(AccessStep::ValidateStaged { dest, staged }),
                },
            },
            (
                AccessStep::ValidateForStage { dest, pinned, cache },
                AccessReply::Row(checked),
            ) => here.validate(checked, AccessStep::ProbePinnedForStage { dest, pinned, cache }),
            (
                AccessStep::ProbePinnedForStage { dest, pinned, cache },
                AccessReply::Exists(found),
            ) => match found {
                Err(detail) => here.fail(BlobCacheError::Io(detail)),
                Ok(true) => here.go(AccessStep::CopyForStage { from: pinned, dest }),
                Ok(false) => here.go(AccessStep::ProbeCacheForStage { dest, cache }),
            },
            (AccessStep::ProbeCacheForStage { dest, cache }, AccessReply::Exists(found)) => match found {
                Err(detail) => here.fail(BlobCacheError::Io(detail)),
                Ok(true) => here.go(AccessStep::CopyForStage { from: cache, dest }),
                Ok(false) => if here.connected {
                    here.go(AccessStep::Download { dest })
                } else {
                    here.fail(BlobCacheError::NoCloudHome)
                },
            },
            (AccessStep::CopyForStage { from, dest }, AccessReply::Copied(copied)) => match copied {
                Err(detail) => here.fail(BlobCacheError::Io(detail)),
                Ok((staged, size, hash)) => here.measure(
                    from,
                    Ok((size, hash)),
                    AccessStep::ValidateStaged { dest, staged },
                ),
            },
            (AccessStep::ValidateStaged { dest, staged }, AccessReply::Row(checked)) => {
                let checked_step = if purpose == BlobUse::Stage {
                    AccessStep::Done { served: Served::Staged }
                } else {
                    AccessStep::MeasureStaged { dest, staged }
                };
                here.validate(checked, checked_step)
            },
            (AccessStep::ReadStaged { dest, .. }, AccessReply::Disk(done)) => here.work(
                done,
                AccessStep::ValidateForPublish { dest, moved: None, served: Served::Contents },
            ),
            (AccessStep::MeasureStaged { dest, staged }, AccessReply::Facts(facts)) => {
                let path = staged.clone();
                let exact = if purpose == BlobUse::Open {
                    AccessStep::OpenStaged { dest, staged }
                } else {
                    AccessStep::ValidateForPublish { dest, moved: None, served: Served::Placed }
                };
                here.measure(path, facts, exact)
            },
            (AccessStep::OpenStaged { dest, .. }, AccessReply::Opened(opened)) => match opened {
                Err(detail) => here.fail(BlobCacheError::Io(detail)),
                Ok(size) => here.go(
                    AccessStep::ValidateForPublish {
                        dest,
                        moved: None,
                        served: Served::Stream { source: BlobStreamSource::Local, size },
                    },
                ),
            },
            (AccessStep::CopyForMove { from, dest }, AccessReply::Copied(copied)) => {
                let source = from.clone();
                let facts = match copied {
                    Err(detail) => Err(detail),
                    Ok((_, size, hash)) => Ok((size, hash)),
                };
                here.measure(
                    from,
                    facts,
                    AccessStep::ValidateForPublish {
                        dest,
                        moved: Some(source),
                        served: Served::Placed,
                    },
                )
            },
            (
                AccessStep::ValidateForPublish { dest, moved, served },
                AccessReply::Row(checked),
            ) => here.validate(checked, AccessStep::Publish { dest, moved, served }),
            (AccessStep::Publish { dest, moved, served }, AccessReply::Published(outcome)) => match outcome {
                PublishReply::Published => {
                    let step = here.after_publish(dest, moved, served);
                    here.go(step)
                },
                PublishReply::DestinationExists(path) => here.go(
                    AccessStep::MeasureOccupied { path, dest, moved, served },
                ),
                PublishReply::Failed(detail) => here.fail(BlobCacheError::Io(detail)),
            },
            (
                AccessStep::MeasureOccupied { path, dest, moved, served },
                AccessReply::Facts(facts),
            ) => {
                let step = here.after_publish(dest, moved, served);
                here.measure(path, facts, step)
            },
            (AccessStep::RemoveSource { from, served }, AccessReply::Disk(done)) => here.work(
                done,
                AccessStep::SyncSource { from, served },
            ),
            (AccessStep::SyncSource { served, .. }, AccessReply::Disk(done)) => here.work(
                done,
                AccessStep::Done { served },
            ),
            (AccessStep::Evict { served, .. }, AccessReply::Evicted(done)) => match done {
                Err(error) => here.fail(error),
                Ok(_) => here.go(AccessStep::ValidateAtEnd { served }),
            },
            (AccessStep::ValidateAtEnd { served }, AccessReply::Row(checked)) => here.validate(
                checked,
                AccessStep::Done { served },
            ),
            (AccessStep::DropPinned { cache, .. }, AccessReply::Disk(done)) => here.work(
                done,
                AccessStep::DropCached { cache },
            ),
            (AccessStep::DropCached { .. }, AccessReply::Disk(done)) => here.work(
                done,
                AccessStep::Done { served: Served::Dropped },
            ),
            (step, _) => here.go(step),
        }
    }
}

/// Whether a use is about a stored object and its cached copies alone.
pub open spec fn about_copies(purpose: BlobUse) -> bool {
    purpose == BlobUse::Pin || purpose == BlobUse::Unpin || purpose == BlobUse::IsPinned || purpose
        == BlobUse::Drop || purpose == BlobUse::Stage
}

impl BlobAccess {
    /// Whether the access may look at cached copies of the row's stored object.
    pub open spec fn on_stored_object(self) -> bool {
        self.row.stored is Some && (about_copies(self.purpose) || self.row.authority is Remote)
    }

    /// Whether the access fills a cache folder from the cloud or from the other folder.
    pub open spec fn fills(self) -> bool {
        self.on_stored_object() && !(self.purpose == BlobUse::IsPinned || self.purpose
            == BlobUse::Drop) && !(self.purpose == BlobUse::Open && self.sealed())
    }

    /// What holds of an access at each step: a cloud object and its cached copies are
    /// touched only for a stored object, by a use of those copies or of a remote row; a
    /// user's file and the local store only for a row whose bytes are on this device; the
    /// cloud only where a home is connected.
    pub open spec fn in_order(self) -> bool {
        match self.step {
            AccessStep::LookUpExternal | AccessStep::ServeExternal { .. } => !about_copies(
                self.purpose,
            ) && source_of(self.row) == BlobSource::External,
            AccessStep::ProbeLocal { .. } => !about_copies(self.purpose) && source_of(self.row)
                == BlobSource::LocalStore,
            AccessStep::ServeFile { .. } => !about_copies(self.purpose),
            AccessStep::ProbePinned { .. } => self.on_stored_object() && self.purpose
                != BlobUse::Drop && self.purpose != BlobUse::Stage,
            AccessStep::ReprobePinned { .. } | AccessStep::CheckCached { .. } =>
            self.on_stored_object() && self.purpose == BlobUse::Pin,
            AccessStep::ProbeCache { .. } => self.on_stored_object() && self.purpose
                != BlobUse::Unpin && self.purpose != BlobUse::IsPinned && self.purpose
                != BlobUse::Drop && self.purpose != BlobUse::Stage,
            AccessStep::CheckPinned { .. } => self.on_stored_object() && (self.purpose
                == BlobUse::Pin || self.purpose == BlobUse::IsPinned),
            AccessStep::OpenRange => self.on_stored_object() && self.purpose == BlobUse::Open
                && self.sealed() && self.connected,
            AccessStep::Download { .. } => self.fills() && self.purpose != BlobUse::Unpin
                && self.connected,
            AccessStep::ValidateForStage { .. } => self.on_stored_object() && (self.purpose
                == BlobUse::Pin || self.purpose == BlobUse::Materialize),
            AccessStep::ProbePinnedForStage { .. }
            | AccessStep::ProbeCacheForStage { .. }
            | AccessStep::CopyForStage { .. }
            | AccessStep::ValidateStaged { .. } => self.on_stored_object() && (self.purpose
                == BlobUse::Pin || self.purpose == BlobUse::Materialize || self.purpose
                == BlobUse::Stage),
            AccessStep::ReadStaged { .. } => self.on_stored_object() && self.purpose
                == BlobUse::Read,
            AccessStep::MeasureStaged { .. } => self.fills() && self.purpose != BlobUse::Unpin
                && self.purpose != BlobUse::Read && self.purpose != BlobUse::Stage,
            AccessStep::OpenStaged { .. } => self.fills() && self.purpose == BlobUse::Open,
            AccessStep::CopyForMove { .. } => self.on_stored_object() && (self.purpose
                == BlobUse::Pin || self.purpose == BlobUse::Unpin),
            AccessStep::ValidateForPublish { moved, .. }
            | AccessStep::Publish { moved, .. }
            | AccessStep::MeasureOccupied { moved, .. } => self.fills() && self.purpose
                != BlobUse::Stage && (moved is Some ==> (
            self.purpose == BlobUse::Pin || self.purpose == BlobUse::Unpin)),
            AccessStep::RemoveSource { .. } | AccessStep::SyncSource { .. } =>
            self.on_stored_object() && (self.purpose == BlobUse::Pin || self.purpose
                == BlobUse::Unpin),
            AccessStep::Evict { .. } => self.fills() && (self.purpose == BlobUse::Read
                || self.purpose == BlobUse::Open),
            AccessStep::ValidateAtEnd { .. } => !about_copies(self.purpose),
            AccessStep::DropPinned { .. } | AccessStep::DropCached { .. } => self.on_stored_object()
                && self.purpose == BlobUse::Drop,
            AccessStep::Validate | AccessStep::Done { .. } | AccessStep::Failed { .. } => true,
        }
    }
}

/// That an access follows on another under a reply.
#[verifier::opaque]
pub open spec fn access_leads(before: BlobAccess, reply: AccessReply, after: BlobAccess) -> bool {
    before.follows(reply, after)
}

/// Whether `states` is an access from its first step, and `replies` what it was told.
pub open spec fn is_access_run(states: Seq<BlobAccess>, replies: Seq<AccessReply>) -> bool {
    &&& states.len() == replies.len() + 1
    &&& states[0].step is Validate
    &&& forall|i: int|
        0 <= i < replies.len() ==> #[trigger] access_leads(states[i], replies[i], states[i + 1])
}

#[verifier::rlimit(40)]
proof fn lemma_access_step(before: BlobAccess, reply: AccessReply, after: BlobAccess)
    requires
        access_leads(before, reply, after),
        before.in_order(),
    ensures
        after.in_order(),
        after == before.at(after.step),
{
    reveal(access_leads);
}

/// Reads go by authority. At every moment of every access, the cloud and the cached copies
/// are touched only for a stored object, by a use of those copies or of a remote row; the
/// user's file and the local store only for a row whose bytes are on this device; the cloud
/// only where a home is connected. Opening a sealed blob for ranges fills no cache.
pub proof fn law_access_goes_by_authority(
    states: Seq<BlobAccess>,
    replies: Seq<AccessReply>,
    k: int,
)
    requires
        is_access_run(states, replies),
        0 <= k < states.len(),
    ensures
        states[k].in_order(),
        states[k] == states[0].at(states[k].step),
    decreases k,
{
    if k > 0 {
        law_access_goes_by_authority(states, replies, k - 1);
        assert(access_leads(states[k - 1], replies[k - 1], states[k - 1 + 1]));
        lemma_access_step(states[k - 1], replies[k - 1], states[k]);
    }
}

/// The file that an access measures at this step, which must be the row's plaintext.
pub open spec fn measured_path(access: BlobAccess) -> Option<String> {
    match access.step {
        AccessStep::ServeFile { path } => if access.purpose == BlobUse::Open {
            None
        } else {
            Some(path)
        },
        AccessStep::CheckPinned { pinned } => Some(pinned),
        AccessStep::CheckCached { cache, .. } => Some(cache),
        AccessStep::CopyForStage { from, .. } => Some(from),
        AccessStep::CopyForMove { from, .. } => Some(from),
        AccessStep::MeasureStaged { staged, .. } => Some(staged),
        AccessStep::MeasureOccupied { path, .. } => Some(path),
        _ => None,
    }
}

/// The reply that tells the length and the hash that were measured at this step.
pub open spec fn measurement(access: BlobAccess, staged: String, size: u64, hash: ObjectHash) -> AccessReply {
    match access.step {
        AccessStep::CopyForStage { .. } | AccessStep::CopyForMove { .. } => AccessReply::Copied(
            Ok((staged, size, hash)),
        ),
        _ => AccessReply::Facts(Ok((size, hash))),
    }
}

/// A file that is not exactly what the row declares ends the access with an error that says
/// so: it is not served, not moved and not replaced.
pub proof fn law_altered_files_fail_loudly(
    before: BlobAccess,
    staged: String,
    size: u64,
    hash: ObjectHash,
    after: BlobAccess,
)
    requires
        before.follows(measurement(before, staged, size, hash), after),
        measured_path(before) is Some,
        size != before.row.plaintext_size || hash != before.row.plaintext_hash,
    ensures
        after.step == (AccessStep::Failed {
            error: BlobCacheError::LocalIntegrity {
                path: measured_path(before)->0,
                expected_size: before.row.plaintext_size,
                actual_size: size,
                expected_hash: before.row.plaintext_hash,
                actual_hash: hash,
            },
        }),
{
}

/// A whole read and a materialization hand out nothing unverified: what they serve from a
/// file of this device was measured and is exactly what the row declares.
pub proof fn law_served_files_are_exact(
    before: BlobAccess,
    reply: AccessReply,
    after: BlobAccess,
)
    requires
        before.follows(reply, after),
        before.step is ServeFile || before.step is ServeExternal,
        before.purpose != BlobUse::Open,
        after.step is ValidateAtEnd,
    ensures
        reply == AccessReply::Facts(Ok((before.row.plaintext_size, before.row.plaintext_hash))),
{
}

/// The file that moves between the cache folders is removed from the one only when the
/// other holds it: its copy was published, or the file in the way was measured and is
/// exactly the row's plaintext.
pub proof fn law_moves_never_lose_the_copy(
    before: BlobAccess,
    reply: AccessReply,
    after: BlobAccess,
)
    requires
        before.follows(reply, after),
        after.step is RemoveSource,
        !(before.step is RemoveSource),
    ensures
        before.step is Publish ==> reply == AccessReply::Published(PublishReply::Published),
        before.step is MeasureOccupied ==> reply == AccessReply::Facts(
            Ok((before.row.plaintext_size, before.row.plaintext_hash)),
        ),
        before.step is Publish || before.step is MeasureOccupied,
{
}

/// Nothing is published, and no contents, stream or staged file handed out, but for a row that was just
/// found to have this version.
pub proof fn law_row_is_checked_before_it_counts(
    before: BlobAccess,
    reply: AccessReply,
    after: BlobAccess,
)
    requires
        before.follows(reply, after),
        before.in_order(),
        !(before.step is Publish) && after.step is Publish || !(before.step is Done)
            && after.step is Done && (before.purpose == BlobUse::Read || before.purpose
            == BlobUse::Open || before.purpose == BlobUse::Stage),
    ensures
        reply matches AccessReply::Row(Ok(_)),
{
}

/// How many operations an access has before it at most.
pub open spec fn steps_left(step: AccessStep) -> nat {
    match step {
        AccessStep::Validate => 20,
        AccessStep::LookUpExternal => 19,
        AccessStep::ServeExternal { .. } => 18,
        AccessStep::ProbeLocal { .. } => 19,
        AccessStep::ProbePinned { .. } => 19,
        AccessStep::ReprobePinned { .. } => 18,
        AccessStep::ProbeCache { .. } => 17,
        AccessStep::ServeFile { .. } => 16,
        AccessStep::CheckPinned { .. } => 16,
        AccessStep::CheckCached { .. } => 16,
        AccessStep::OpenRange => 16,
        AccessStep::ValidateForStage { .. } => 16,
        AccessStep::ProbePinnedForStage { .. } => 15,
        AccessStep::ProbeCacheForStage { .. } => 14,
        AccessStep::CopyForStage { .. } => 13,
        AccessStep::Download { .. } => 13,
        AccessStep::ValidateStaged { .. } => 12,
        AccessStep::ReadStaged { .. } => 12,
        AccessStep::MeasureStaged { .. } => 11,
        AccessStep::OpenStaged { .. } => 10,
        AccessStep::CopyForMove { .. } => 10,
        AccessStep::ValidateForPublish { .. } => 9,
        AccessStep::Publish { .. } => 8,
        AccessStep::MeasureOccupied { .. } => 7,
        AccessStep::RemoveSource { .. } => 6,
        AccessStep::SyncSource { .. } => 5,
        AccessStep::Evict { .. } => 4,
        AccessStep::ValidateAtEnd { .. } => 3,
        AccessStep::DropPinned { .. } => 2,
        AccessStep::DropCached { .. } => 1,
        AccessStep::Done { .. } => 0,
        AccessStep::Failed { .. } => 0,
    }
}

/// Every access ends: each reply that answers the step brings it nearer to its end, and
/// one that does not changes nothing.
#[verifier::rlimit(40)]
pub proof fn law_access_ends(before: BlobAccess, reply: AccessReply, after: BlobAccess)
    requires
        before.follows(reply, after),
    ensures
        after == before || steps_left(after.step) < steps_left(before.step),
{
    match before.step {
        AccessStep::Validate => {
            assert(after == before || steps_left(after.step) < 20);
        },
        AccessStep::ProbePinned { pinned, cache } => {
            assert(steps_left(before.pinned_hit(pinned, cache)) < 19);
            assert(steps_left(before.pinned_miss(pinned, cache)) < 19);
        },
        AccessStep::ProbeCache { pinned, cache } => {
            assert(steps_left(before.cache_hit(pinned, cache)) < 17);
            assert(steps_left(before.cache_miss(pinned, cache)) < 17);
        },
        AccessStep::Download { dest } => {
            assert(forall|staged: String|
                steps_left(#[trigger] before.downloaded(dest, staged)) < 13);
        },
        AccessStep::Publish { dest, moved, served } => {
            assert(steps_left(before.published(dest, moved, served)) < 7);
        },
        AccessStep::MeasureOccupied { dest, moved, served, .. } => {
            assert(steps_left(before.published(dest, moved, served)) < 7);
        },
        _ => {},
    }
}

/// The operation that keeping a copy performs next.
#[derive(Debug)]
pub enum KeepStep {
    /// Copy the file beside its destination.
    Copy { from: String, dest: String },
    /// Measure the copy.
    Measure { dest: String, staged: String },
    /// Give the copy its name, replacing nothing.
    Publish { dest: String },
    /// Measure the file that was in the way.
    MeasureOccupied { path: String, dest: String },
    /// Evict the namespace to its budget, sparing the copy.
    Evict { protect: String },
    /// Done.
    Done,
    /// Given up.
    Failed { error: BlobCacheError },
}

/// What an operation came to. A copy says where the staged file is.
#[derive(Debug)]
pub enum KeepReply {
    Copied(Result<String, String>),
    Facts(Result<(u64, ObjectHash), String>),
    Published(PublishReply),
    Evicted(Result<(), BlobCacheError>),
}

/// A copy of a just-uploaded blob's plaintext on its way into a cache folder.
#[derive(Debug)]
pub struct KeepCopy {
    /// The plaintext's length.
    pub size: u64,
    /// The plaintext's hash.
    pub hash: ObjectHash,
    /// Whether the folder is evictable, and thus under a budget.
    pub evictable: bool,
    /// What happens next.
    pub step: KeepStep,
}

impl KeepCopy {
    /// The same work at another step.
    pub open spec fn at(self, step: KeepStep) -> KeepCopy {
        KeepCopy { step, ..self }
    }

    /// What a measurement leads to.
    pub open spec fn measured(
        self,
        path: String,
        facts: Result<(u64, ObjectHash), String>,
        exact: KeepStep,
    ) -> KeepCopy {
        match facts {
            Err(detail) => self.at(KeepStep::Failed { error: BlobCacheError::Io(detail) }),
            Ok((size, hash)) => match identity_fault(path, self.size, self.hash, size, hash) {
                Some(fault) => self.at(KeepStep::Failed { error: fault }),
                None => self.at(exact),
            },
        }
    }

    /// What a copy in its place leads to.
    pub open spec fn placed(self, dest: String) -> KeepStep {
        if self.evictable {
            KeepStep::Evict { protect: dest }
        } else {
            KeepStep::Done
        }
    }

    /// What follows on each reply. A reply that does not answer the step changes nothing.
    pub open spec fn follows(self, reply: KeepReply, next: KeepCopy) -> bool {
        next == (match (self.step, reply) {
            (KeepStep::Copy { dest, .. }, KeepReply::Copied(copied)) => match copied {
                Err(detail) => self.at(KeepStep::Failed { error: BlobCacheError::Io(detail) }),
                Ok(staged) => self.at(KeepStep::Measure { dest, staged }),
            },
            (KeepStep::Measure { dest, staged }, KeepReply::Facts(facts)) => self.measured(
                staged,
                facts,
                KeepStep::Publish { dest },
            ),
            (KeepStep::Publish { dest }, KeepReply::Published(outcome)) => match outcome {
                PublishReply::Published => self.at(self.placed(dest)),
                PublishReply::DestinationExists(path) => self.at(
                    KeepStep::MeasureOccupied { path, dest },
                ),
                PublishReply::Failed(detail) => self.at(
                    KeepStep::Failed { error: BlobCacheError::Io(detail) },
                ),
            },
            (KeepStep::MeasureOccupied { path, dest }, KeepReply::Facts(facts)) => self.measured(
                path,
                facts,
                self.placed(dest),
            ),
            (KeepStep::Evict { .. }, KeepReply::Evicted(done)) => match done {
                Err(error) => self.at(KeepStep::Failed { error }),
                Ok(_) => self.at(KeepStep::Done),
            },
            _ => self,
        })
    }

    fn go(self, step: KeepStep) -> (next: KeepCopy)
        ensures
            next == self.at(step),
    {
        KeepCopy { step, ..self }
    }

    fn measure(self, path: String, facts: Result<(u64, ObjectHash), String>, exact: KeepStep) -> (next:
        KeepCopy)
        ensures
            next == self.measured(path, facts, exact),
    {
        match facts {
            Err(detail) => self.go(KeepStep::Failed { error: BlobCacheError::Io(detail) }),
            Ok((size, hash)) => match verify_local_file_identity_values(
                &path,
                self.size,
                self.hash,
                size,
                hash,
            ) {
                Err(fault) => self.go(KeepStep::Failed { error: fault }),
                Ok(_) => self.go(exact),
            },
        }
    }

    fn place(&self, dest: String) -> (step: KeepStep)
        ensures
            step == self.placed(dest),
    {
        if self.evictable {
            KeepStep::Evict { protect: dest }
        } else {
            KeepStep::Done
        }
    }

    /// Takes the reply to the present step and decides the next one.
    pub fn next(self, reply: KeepReply) -> (next: KeepCopy)
        ensures
            self.follows(reply, next),
    {
        let KeepCopy { size, hash, evictable, step } = self;
        let here = KeepCopy { size, hash, evictable, step: KeepStep::Done };
        match (step, reply) {
            (KeepStep::Copy { dest, .. }, KeepReply::Copied(copied)) => match copied {
                Err(detail) => here.go(KeepStep::Failed { error: BlobCacheError::Io(detail) }),
                Ok(staged) => here.go(KeepStep::Measure { dest, staged }),
            },
            (KeepStep::Measure { dest, staged }, KeepReply::Facts(facts)) => here.measure(
                staged,
                facts,
                KeepStep::Publish { dest },
            ),
            (KeepStep::Publish { dest }, KeepReply::Published(outcome)) => match outcome {
                PublishReply::Published => {
                    let step = here.place(dest);
                    here.go(step)
                },
                PublishReply::DestinationExists(path) => here.go(
                    KeepStep::MeasureOccupied { path, dest },
                ),
                PublishReply::Failed(detail) => here.go(
                    KeepStep::Failed { error: BlobCacheError::Io(detail) },
                ),
            },
            (KeepStep::MeasureOccupied { path, dest }, KeepReply::Facts(facts)) => {
                let step = here.place(dest);
                here.measure(path, facts, step)
            },
            (KeepStep::Evict { .. }, KeepReply::Evicted(done)) => match done {
                Err(error) => here.go(KeepStep::Failed { error }),
                Ok(_) => here.go(KeepStep::Done),
            },
            (step, _) => here.go(step),
        }
    }
}

/// Starts keeping a copy of a just-uploaded blob that the user pinned. The kept folder is
/// under no budget.
pub fn populate_pinned(store_dir: &StoreDir, stored: &StoredBlobRef, source: String) -> (kept: Result<
    KeepCopy,
    BlobCacheError,
>)
    ensures
        match token_fault(stored@.locator.namespace()) {
            Some(fault) => kept == Err::<KeepCopy, BlobCacheError>(BlobCacheError::Path(fault)),
            None => kept matches Ok(copy) && copy.size == stored@.locator.plaintext_size()
                && copy.hash == stored@.locator.plaintext_hash() && !copy.evictable && (
            copy.step matches KeepStep::Copy { from, dest } && from == source && dest@
                == pinned_path_text(
                store_dir@,
                stored@.locator.namespace(),
                sha256(stored@.locator.canonical()),
            )),
        },
{
    match cached_paths(store_dir, stored) {
        Err(error) => Err(error),
        Ok((pinned, _)) => Ok(
            KeepCopy {
                size: stored.locator.plaintext_size(),
                hash: stored.locator.plaintext_hash(),
                evictable: false,
                step: KeepStep::Copy { from: source, dest: pinned },
            },
        ),
    }
}

/// Starts copying a just-uploaded blob's plaintext into the evictable folder, which is then
/// evicted to its budget.
pub fn write_blob_from_file(store_dir: &StoreDir, stored: &StoredBlobRef, source: String) -> (kept:
    Result<KeepCopy, BlobCacheError>)
    ensures
        match token_fault(stored@.locator.namespace()) {
            Some(fault) => kept == Err::<KeepCopy, BlobCacheError>(BlobCacheError::Path(fault)),
            None => kept matches Ok(copy) && copy.size == stored@.locator.plaintext_size()
                && copy.hash == stored@.locator.plaintext_hash() && copy.evictable && (
            copy.step matches KeepStep::Copy { from, dest } && from == source && dest@
                == cache_path_text(
                store_dir@,
                stored@.locator.namespace(),
                sha256(stored@.locator.canonical()),
            )),
        },
{
    match cached_paths(store_dir, stored) {
        Err(error) => Err(error),
        Ok((_, cache)) => Ok(
            KeepCopy {
                size: stored.locator.plaintext_size(),
                hash: stored.locator.plaintext_hash(),
                evictable: true,
                step: KeepStep::Copy { from: source, dest: cache },
            },
        ),
    }
}

/// A copy gets its name only when it was measured and is exactly the plaintext that was
/// uploaded.
pub proof fn law_kept_copies_are_exact(before: KeepCopy, reply: KeepReply, after: KeepCopy)
    requires
        before.follows(reply, after),
        after.step is Publish,
        !(before.step is Publish),
    ensures
        reply == KeepReply::Facts(Ok((before.size, before.hash))),
{
}

} // verus!
