//! The upload half of the blob engine.
//!
//! Each queued upload moves through Pending, Prepared and Created. Prepared durably
//! binds its locator, its allocated object and its spool; Created records that exactly
//! those bytes are in the cloud and were verified. A root is published only when every
//! one of its uploads is Created.
//!
//! [`UploadAttempt`] decides one attempt at one entry: its step names the one operation
//! to perform next, and [`UploadAttempt::next`] takes the operation's reply.
//! [`UploadDrain`] decides which entries of the queue are attempted, and when.

use std::collections::VecDeque;
use vstd::prelude::*;
use vstd::string::*;

use crate::blob::locator::{browsable_key, opaque_key, BlobLocator, BlobLocatorError, LocatorErrorView, LocatorView, RemoteAudience, StoredBlobRef};
use crate::blob::retry::{entry_in_backoff, in_backoff};
use crate::blob::transition::PostUpload;
use crate::blob::TransferLimit;
use crate::clock::{format_rfc3339, has_plain_year, is_moment, rfc3339, rfc3339_text, Instant};
use crate::digest::sha256;
use crate::outbox::{MakeRemoteIntentState, OutboxEntry, OutboxOperation, OutboxUploadState, RowBlobRef};
use crate::storage::{BlobSpoolProtection, StorageError, StorageErrorView};
use crate::store_dir::{spool_path_text, StoreDir};
use crate::text::{decimal, decimal_text, signed_decimal, signed_decimal_text};

verus! {

/// Why an upload failed.
#[derive(Debug)]
pub enum UploadFailureCause {
    /// Something on this device.
    Local(String),
    /// The cloud storage.
    Storage(StorageError),
}

/// What an [`UploadFailureCause`] says.
pub ghost enum CauseView {
    Local(Seq<char>),
    Storage(StorageErrorView),
}

impl View for UploadFailureCause {
    type V = CauseView;

    open spec fn view(&self) -> CauseView {
        match self {
            UploadFailureCause::Local(reason) => CauseView::Local(reason@),
            UploadFailureCause::Storage(error) => CauseView::Storage(error@),
        }
    }
}

impl CauseView {
    /// The cause in words.
    pub open spec fn message_text(self) -> Seq<char> {
        match self {
            CauseView::Local(reason) => "local upload source: "@ + reason,
            CauseView::Storage(error) => "blob storage: "@ + error.message_text(),
        }
    }
}

impl UploadFailureCause {
    /// The cause in words.
    pub fn message(&self) -> (text: String)
        ensures
            text@ == self@.message_text(),
    {
        match self {
            UploadFailureCause::Local(reason) => "local upload source: ".to_owned().concat(
                reason.as_str(),
            ),
            UploadFailureCause::Storage(error) => "blob storage: ".to_owned().concat(
                error.message().as_str(),
            ),
        }
    }
}

/// One queue entry that failed.
#[derive(Debug)]
pub struct UploadFailure {
    /// The entry's key.
    pub entry_id: i64,
    /// Which object, or which row where no object was allocated yet.
    pub object_key: String,
    /// Why.
    pub cause: UploadFailureCause,
}

/// What an [`UploadFailure`] says.
pub ghost struct FailureView {
    pub entry_id: i64,
    pub object_key: Seq<char>,
    pub cause: CauseView,
}

impl View for UploadFailure {
    type V = FailureView;

    open spec fn view(&self) -> FailureView {
        FailureView {
            entry_id: self.entry_id,
            object_key: self.object_key@,
            cause: self.cause@,
        }
    }
}

/// The entries that failed in one drain pass, in the order their attempts ended.
#[derive(Debug)]
pub struct UploadFailures(pub Vec<UploadFailure>);

/// One failure in words, as it stands in the list of a pass.
pub open spec fn failure_text(failure: FailureView) -> Seq<char> {
    "; entry "@ + signed_decimal(failure.entry_id as int) + " "@ + failure.object_key + ": "@
        + failure.cause.message_text()
}

/// The failures of a pass in words.
pub open spec fn failures_text(failures: Seq<UploadFailure>) -> Seq<char>
    decreases failures.len(),
{
    if failures.len() == 0 {
        Seq::empty()
    } else {
        failures_text(failures.drop_last()) + failure_text(failures.last()@)
    }
}

impl UploadFailures {
    /// The failures, in order.
    pub fn failures(&self) -> (failures: &[UploadFailure])
        ensures
            failures@ == self.0@,
    {
        self.0.as_slice()
    }

    /// Whether any entry failed because the provider could not be reached.
    pub fn has_transport_failure(&self) -> (offline: bool)
        ensures
            offline == exists|i: int|
                0 <= i < self.0@.len() && (#[trigger] self.0@[i]).cause@ matches CauseView::Storage(
                    StorageErrorView::Transport(_),
                ),
    {
        self.transport_failure().is_some()
    }

    /// The first failure that came from a provider out of reach.
    pub fn transport_failure(&self) -> (found: Option<&StorageError>)
        ensures
            match found {
                Some(error) => exists|i: int|
                    {
                        &&& 0 <= i < self.0@.len()
                        &&& (#[trigger] self.0@[i]).cause == UploadFailureCause::Storage(*error)
                        &&& *error is Transport
                        &&& forall|j: int|
                            0 <= j < i ==> !((#[trigger] self.0@[j]).cause@ matches CauseView::Storage(
                                StorageErrorView::Transport(_),
                            ))
                    },
                None => forall|i: int|
                    0 <= i < self.0@.len() ==> !((#[trigger] self.0@[i]).cause@ matches CauseView::Storage(
                        StorageErrorView::Transport(_),
                    )),
            },
    {
        let mut i: usize = 0;
        while i < self.0.len()
            invariant
                i <= self.0.len(),
                forall|j: int|
                    0 <= j < i ==> !((#[trigger] self.0@[j]).cause@ matches CauseView::Storage(
                        StorageErrorView::Transport(_),
                    )),
            decreases self.0.len() - i,
        {
            match &self.0[i].cause {
                UploadFailureCause::Storage(error) => {
                    if error.is_transport() {
                        assert(self.0@[i as int].cause == UploadFailureCause::Storage(*error));
                        return Some(error);
                    }
                },
                UploadFailureCause::Local(_) => {},
            }
            i = i + 1;
        }
        None
    }

    /// All failures in words.
    pub fn message(&self) -> (text: String)
        ensures
            text@ == decimal(self.0@.len()) + " blob upload(s) failed"@ + failures_text(self.0@),
    {
        let mut text: String = decimal_text(self.0.len() as u64).concat(" blob upload(s) failed");
        let ghost head = text@;
        let mut i: usize = 0;
        assert(self.0@.take(0) =~= Seq::<UploadFailure>::empty());
        assert(text@ =~= head + failures_text(self.0@.take(0)));
        while i < self.0.len()
            invariant
                i <= self.0.len(),
                text@ == head + failures_text(self.0@.take(i as int)),
            decreases self.0.len() - i,
        {
            let failure: &UploadFailure = &self.0[i];
            let ghost before = text@;
            text.append("; entry ");
            text.append(signed_decimal_text(failure.entry_id).as_str());
            text.append(" ");
            text.append(failure.object_key.as_str());
            text.append(": ");
            text.append(failure.cause.message().as_str());
            assert(text@ =~= before + failure_text(failure@));
            assert(self.0@.take(i + 1).drop_last() =~= self.0@.take(i as int));
            assert(text@ =~= head + failures_text(self.0@.take(i + 1)));
            i = i + 1;
        }
        assert(self.0@.take(self.0@.len() as int) =~= self.0@);
        text
    }
}

impl Default for UploadFailures {
    fn default() -> (failures: UploadFailures)
        ensures
            failures.0@.len() == 0,
    {
        UploadFailures(Vec::new())
    }
}

/// One queued upload, unpacked from its queue entry.
#[derive(Debug)]
pub struct UploadJob {
    pub id: i64,
    pub attempt_count: i64,
    pub last_attempt_at: Option<String>,
    pub root_table: String,
    pub root_id: String,
    pub row: RowBlobRef,
    pub source_path: String,
    pub retain_pinned: bool,
    pub state: OutboxUploadState,
}

impl UploadJob {
    /// The queue entry in its present state.
    pub open spec fn entry_spec(self) -> OutboxEntry {
        OutboxEntry {
            id: self.id,
            operation: OutboxOperation::Upload {
                root_table: self.root_table,
                root_id: self.root_id,
                row: self.row,
                source_path: self.source_path,
                retain_pinned: self.retain_pinned,
                state: self.state,
            },
            attempt_count: self.attempt_count,
            last_attempt_at: self.last_attempt_at,
        }
    }

    /// The upload an entry queues, or the entry itself where it queues a deletion.
    pub fn from_entry(entry: OutboxEntry) -> (job: Result<UploadJob, OutboxEntry>)
        ensures
            match job {
                Ok(j) => j.entry_spec() == entry,
                Err(e) => e == entry && entry.operation is Delete,
            },
    {
        match entry.operation {
            OutboxOperation::Upload {
                root_table,
                root_id,
                row,
                source_path,
                retain_pinned,
                state,
            } => Ok(
                UploadJob {
                    id: entry.id,
                    attempt_count: entry.attempt_count,
                    last_attempt_at: entry.last_attempt_at,
                    root_table,
                    root_id,
                    row,
                    source_path,
                    retain_pinned,
                    state,
                },
            ),
            OutboxOperation::Delete { stored } => Err(
                OutboxEntry {
                    id: entry.id,
                    operation: OutboxOperation::Delete { stored },
                    attempt_count: entry.attempt_count,
                    last_attempt_at: entry.last_attempt_at,
                },
            ),
        }
    }

    /// The queue entry in its present state, against which its next state is recorded.
    pub fn entry(&self) -> (entry: OutboxEntry)
        ensures
            entry == self.entry_spec(),
    {
        OutboxEntry {
            id: self.id,
            operation: OutboxOperation::Upload {
                root_table: self.root_table.clone(),
                root_id: self.root_id.clone(),
                row: self.row.clone(),
                source_path: self.source_path.clone(),
                retain_pinned: self.retain_pinned,
                state: self.state.clone(),
            },
            attempt_count: self.attempt_count,
            last_attempt_at: crate::blob::duplicate_text(&self.last_attempt_at),
        }
    }
}

/// What names a queue entry in a report: its object once it has one, else its row.
pub open spec fn label_text(operation: crate::outbox::OperationView) -> Seq<char> {
    match operation {
        crate::outbox::OperationView::Upload { row, state, .. } => match state {
            crate::outbox::UploadStateView::Pending => row.table + "/"@ + row.row_id + "/"@
                + row.column + "@"@ + row.row_stamp,
            crate::outbox::UploadStateView::Prepared { stored, .. } => stored.object.logical_key,
            crate::outbox::UploadStateView::Created { stored, .. } => stored.object.logical_key,
        },
        crate::outbox::OperationView::Delete { stored } => stored.object.logical_key,
    }
}

/// What names `entry` in a report.
pub fn upload_label(entry: &OutboxEntry) -> (label: String)
    ensures
        label@ == label_text(entry@.operation),
{
    match &entry.operation {
        OutboxOperation::Upload { row, state, .. } => match state {
            OutboxUploadState::Pending => row.table.clone().concat("/").concat(
                row.row_id.as_str(),
            ).concat("/").concat(row.column.as_str()).concat("@").concat(row.row_stamp.as_str()),
            OutboxUploadState::Prepared { stored, .. } => stored.object.logical_key.clone(),
            OutboxUploadState::Created { stored, .. } => stored.object.logical_key.clone(),
        },
        OutboxOperation::Delete { stored } => stored.object.logical_key.clone(),
    }
}

/// Moves an upload entry to its next state; everything else of it stays.
pub fn set_upload_state(entry: &mut OutboxEntry, next: OutboxUploadState)
    requires
        old(entry).operation is Upload,
    ensures
        *final(entry) == (OutboxEntry {
            operation: OutboxOperation::Upload {
                root_table: old(entry).operation->root_table,
                root_id: old(entry).operation->root_id,
                row: old(entry).operation->row,
                source_path: old(entry).operation->source_path,
                retain_pinned: old(entry).operation->retain_pinned,
                state: next,
            },
            ..*old(entry)
        }),
{
    match &mut entry.operation {
        OutboxOperation::Upload { state, .. } => {
            *state = next;
        },
        OutboxOperation::Delete { .. } => {},
    }
}

/// What went wrong in an attempt.
#[derive(Debug)]
pub enum UploadFault {
    /// A database operation.
    Database(String),
    /// A storage operation.
    Storage(StorageError),
    /// A home with readable paths has none for this blob.
    NoReadablePath,
    /// The blob has no locator.
    Locator(BlobLocatorError),
    /// The prepared object belongs to another audience than the whole store.
    ForeignAuthority,
    /// Keeping the uploaded plaintext.
    Pin(String),
    /// Deleting the object of a cancelled upload.
    CancelStorage(StorageError),
    /// Removing the spool of a cancelled upload.
    CancelSpool(String),
    /// Dropping the kept copy of a cancelled upload.
    CancelCache(String),
    /// Recording that a cancelled upload is undone.
    CancelDatabase(String),
}

impl UploadFault {
    /// The cause that is reported.
    pub open spec fn cause_view(self, row: RowBlobRef) -> CauseView {
        match self {
            UploadFault::Database(detail) => CauseView::Local(detail@),
            UploadFault::Storage(error) => CauseView::Storage(error@),
            UploadFault::NoReadablePath => CauseView::Local(
                "Browsable blob "@ + row.blob.namespace@ + "/"@ + row.blob.id@
                    + " has no readable path"@,
            ),
            UploadFault::Locator(error) => CauseView::Local(error@.message_text()),
            UploadFault::ForeignAuthority => CauseView::Local(
                "make_remote upload has non-Store package authority"@,
            ),
            UploadFault::Pin(detail) => CauseView::Local("pin uploaded blob: "@ + detail@),
            UploadFault::CancelStorage(error) => CauseView::Storage(error@),
            UploadFault::CancelSpool(detail) => CauseView::Local(detail@),
            UploadFault::CancelCache(detail) => CauseView::Local(
                "drop cancelled cache copy: "@ + detail@,
            ),
            UploadFault::CancelDatabase(detail) => CauseView::Local(detail@),
        }
    }

    /// Whether the attempt was undoing a cancelled upload.
    pub open spec fn in_cancellation(self) -> bool {
        match self {
            UploadFault::CancelStorage(_) => true,
            UploadFault::CancelSpool(_) => true,
            UploadFault::CancelCache(_) => true,
            UploadFault::CancelDatabase(_) => true,
            _ => false,
        }
    }

    /// The message that is recorded with the entry: the bare reason of an upload, and
    /// the reason with its kind where a cancellation failed.
    pub open spec fn message_text(self, row: RowBlobRef) -> Seq<char> {
        if self.in_cancellation() {
            self.cause_view(row).message_text()
        } else {
            match self.cause_view(row) {
                CauseView::Local(reason) => reason,
                CauseView::Storage(error) => error.message_text(),
            }
        }
    }

    /// The message that is recorded with the entry and told to observers.
    pub fn message(&self, row: &RowBlobRef) -> (text: String)
        ensures
            text@ == self.message_text(*row),
    {
        match self {
            UploadFault::Database(detail) => detail.clone(),
            UploadFault::Storage(error) => error.message(),
            UploadFault::NoReadablePath => no_readable_path(row),
            UploadFault::Locator(error) => error.message(),
            UploadFault::ForeignAuthority => "make_remote upload has non-Store package authority".to_owned(),
            UploadFault::Pin(detail) => "pin uploaded blob: ".to_owned().concat(detail.as_str()),
            UploadFault::CancelStorage(error) => "blob storage: ".to_owned().concat(
                error.message().as_str(),
            ),
            UploadFault::CancelSpool(detail) => "local upload source: ".to_owned().concat(
                detail.as_str(),
            ),
            UploadFault::CancelCache(detail) => {
                let reason: String = "drop cancelled cache copy: ".to_owned().concat(
                    detail.as_str(),
                );
                "local upload source: ".to_owned().concat(reason.as_str())
            },
            UploadFault::CancelDatabase(detail) => "local upload source: ".to_owned().concat(
                detail.as_str(),
            ),
        }
    }

    /// The cause that is reported for the entry.
    pub fn into_cause(self, row: &RowBlobRef) -> (cause: UploadFailureCause)
        ensures
            cause@ == self.cause_view(*row),
    {
        match self {
            UploadFault::Database(detail) => UploadFailureCause::Local(detail),
            UploadFault::Storage(error) => UploadFailureCause::Storage(error),
            UploadFault::NoReadablePath => UploadFailureCause::Local(no_readable_path(row)),
            UploadFault::Locator(error) => UploadFailureCause::Local(error.message()),
            UploadFault::ForeignAuthority => UploadFailureCause::Local(
                "make_remote upload has non-Store package authority".to_owned(),
            ),
            UploadFault::Pin(detail) => UploadFailureCause::Local(
                "pin uploaded blob: ".to_owned().concat(detail.as_str()),
            ),
            UploadFault::CancelStorage(error) => UploadFailureCause::Storage(error),
            UploadFault::CancelSpool(detail) => UploadFailureCause::Local(detail),
            UploadFault::CancelCache(detail) => UploadFailureCause::Local(
                "drop cancelled cache copy: ".to_owned().concat(detail.as_str()),
            ),
            UploadFault::CancelDatabase(detail) => UploadFailureCause::Local(detail),
        }
    }
}

fn no_readable_path(row: &RowBlobRef) -> (text: String)
    ensures
        text@ == "Browsable blob "@ + row.blob.namespace@ + "/"@ + row.blob.id@
            + " has no readable path"@,
{
    "Browsable blob ".to_owned().concat(row.blob.namespace.as_str()).concat("/").concat(
        row.blob.id.as_str(),
    ).concat(" has no readable path")
}

/// The operation that an attempt performs next.
#[derive(Debug)]
pub enum UploadStep {
    /// Tell observers that the attempt starts.
    NotifyStarted,
    /// Read how far the root's transition has come.
    ReadIntent,
    /// Ask how the home protects blobs.
    AskProtection,
    /// Seal the source into the spool.
    Seal { locator: BlobLocator, spool_path: String },
    /// Allocate an object for the sealed bytes.
    AllocateSlot { locator: BlobLocator, spool_path: String },
    /// Bind the allocated object to the spool.
    PrepareObject { locator: BlobLocator, slot: String, spool_path: String },
    /// Record the upload as Prepared.
    MarkPrepared { stored: StoredBlobRef, spool_path: String },
    /// Create the object from the spool.
    CreateObject { stored: StoredBlobRef, spool_path: String },
    /// Verify the created object.
    VerifyObject { stored: StoredBlobRef, spool_path: String },
    /// Record the upload as Created.
    MarkCreated { stored: StoredBlobRef, spool_path: String },
    /// Tell observers that the blob is up.
    NotifyUploaded { stored: StoredBlobRef, spool_path: String },
    /// Keep the plaintext in the pinned folder.
    PopulatePinned { stored: StoredBlobRef, spool_path: String },
    /// Complete the root's transition if this was its last upload.
    Finalize { stored: StoredBlobRef, spool_path: String },
    /// Tell observers that the root is remote.
    NotifyMadeRemote { root_table: String, root_id: String },
    /// Delete the object of the cancelled upload.
    DeleteObject { stored: StoredBlobRef, spool_path: String },
    /// Remove the spool of the cancelled upload.
    RemoveSpool { stored: StoredBlobRef, spool_path: String },
    /// Drop the cached copies of the cancelled upload.
    DropCached { stored: StoredBlobRef },
    /// Remove the cancelled upload from the queue.
    FinishCancelled,
    /// Record the failed attempt with the entry, as of this time.
    RecordFailure { fault: UploadFault, object: Option<StoredBlobRef>, attempted_at: String },
    /// Tell observers that the attempt failed.
    NotifyFailed { fault: UploadFault, object: Option<StoredBlobRef> },
    /// The attempt failed and the entry stays queued.
    Failed { fault: UploadFault, object: Option<StoredBlobRef> },
    /// The attempt succeeded.
    Uploaded { made_remote: bool, created_this_pass: bool },
}

/// What the operation answered.
#[derive(Debug)]
pub enum UploadReply {
    /// A notification was delivered, or a failure recorded as far as it could be.
    Done,
    /// How far the root's transition has come.
    Intent(Result<Option<MakeRemoteIntentState>, String>),
    /// How the home protects blobs.
    Protection(Result<BlobSpoolProtection, StorageError>),
    /// A storage operation without a result of its own.
    Storage(Result<(), StorageError>),
    /// The allocated object slot.
    Slot(Result<String, StorageError>),
    /// The object bound to the spool.
    Prepared(Result<StoredBlobRef, StorageError>),
    /// An operation on this device without a result of its own.
    Local(Result<(), String>),
    /// What the finalizer did.
    Finalized(Result<PostUpload, String>),
}

/// One attempt at one queued upload.
#[derive(Debug)]
pub struct UploadAttempt {
    /// The upload, in the state that is recorded for it.
    pub job: UploadJob,
    /// The public key of this device.
    pub uploader: String,
    /// Where this device keeps its files.
    pub store_dir: StoreDir,
    /// The time of the attempt, as it is recorded where the attempt fails.
    pub attempted_at: String,
    /// Whether this attempt created the object.
    pub created_this_pass: bool,
    /// What to perform next.
    pub step: UploadStep,
}

impl UploadAttempt {
    /// The attempt at another step.
    pub open spec fn at(self, step: UploadStep) -> UploadAttempt {
        UploadAttempt { step, ..self }
    }

    /// The attempt as it fails.
    pub open spec fn failing(self, fault: UploadFault, object: Option<StoredBlobRef>) -> UploadAttempt {
        self.at(UploadStep::RecordFailure { fault, object, attempted_at: self.attempted_at })
    }

    /// The attempt as it turns to undoing a cancelled upload: an upload that never got an
    /// object only leaves the queue.
    pub open spec fn cancelling(self, state: OutboxUploadState) -> UploadAttempt {
        match state {
            OutboxUploadState::Pending => self.at(UploadStep::FinishCancelled),
            OutboxUploadState::Prepared { stored, spool_path, .. } => self.at(
                UploadStep::DeleteObject { stored, spool_path },
            ),
            OutboxUploadState::Created { stored, spool_path, .. } => self.at(
                UploadStep::DeleteObject { stored, spool_path },
            ),
        }
    }

    /// The attempt once its object is known to be created: a blob that is to stay on the
    /// device is pinned before the root is finalized.
    pub open spec fn created(self, stored: StoredBlobRef, spool_path: String) -> UploadAttempt {
        if self.job.retain_pinned {
            self.at(UploadStep::PopulatePinned { stored, spool_path })
        } else {
            self.at(UploadStep::Finalize { stored, spool_path })
        }
    }

    /// The attempt with its upload in another recorded state.
    pub open spec fn recorded(self, state: OutboxUploadState) -> UploadAttempt {
        UploadAttempt { job: UploadJob { state, ..self.job }, ..self }
    }

    /// Where a transition that is not cancelled goes on, by the recorded state.
    pub open spec fn resumed(self) -> UploadAttempt {
        match self.job.state {
            OutboxUploadState::Pending => self.at(UploadStep::AskProtection),
            OutboxUploadState::Prepared { authority, stored, spool_path } => if authority
                == RemoteAudience::Store {
                self.at(UploadStep::CreateObject { stored, spool_path })
            } else {
                self.failing(UploadFault::ForeignAuthority, None)
            },
            OutboxUploadState::Created { authority, stored, spool_path } => if authority
                == RemoteAudience::Store {
                self.created(stored, spool_path)
            } else {
                self.failing(UploadFault::ForeignAuthority, None)
            },
        }
    }

    /// The locator that a protection gives the upload, or why it has none.
    pub open spec fn planned_locator(self, protection: BlobSpoolProtection) -> Result<
        LocatorView,
        Option<LocatorErrorView>,
    > {
        let row = self.job.row;
        match protection {
            BlobSpoolProtection::Opaque(key_fingerprint) => match opaque_key(
                row.blob.namespace@,
                self.uploader@,
                key_fingerprint,
                row.blob.id@,
            ) {
                Err(fault) => Err(Some(fault)),
                Ok(semantic_key) => Ok(
                    LocatorView::Opaque {
                        namespace: row.blob.namespace@,
                        blob_id: row.blob.id@,
                        uploader: self.uploader@,
                        audience: RemoteAudience::Store,
                        scope: row.blob.scope@,
                        key_fingerprint,
                        semantic_key,
                        plaintext_size: row.plaintext_size,
                        plaintext_hash: row.plaintext_hash,
                    },
                ),
            },
            BlobSpoolProtection::Browsable => match row.blob.cloud_path {
                None => Err(None),
                Some(cloud_path) => match browsable_key(
                    row.blob.namespace@,
                    cloud_path@,
                    self.uploader@,
                    row.blob.id@,
                    row.plaintext_hash,
                ) {
                    Err(fault) => Err(Some(fault)),
                    Ok(semantic_key) => Ok(
                        LocatorView::Browsable {
                            namespace: row.blob.namespace@,
                            blob_id: row.blob.id@,
                            uploader: self.uploader@,
                            cloud_path: cloud_path@,
                            semantic_key,
                            plaintext_size: row.plaintext_size,
                            plaintext_hash: row.plaintext_hash,
                        },
                    ),
                },
            },
        }
    }

    /// The attempt once the protection is known: the blob is sealed under the locator it
    /// gives, into a spool named by that locator.
    pub open spec fn planned(self, protection: BlobSpoolProtection, next: UploadAttempt) -> bool {
        match self.planned_locator(protection) {
            Ok(view) => next.step matches UploadStep::Seal { locator, spool_path } && {
                &&& locator@ == view
                &&& spool_path@ == spool_path_text(self.store_dir@, sha256(view.canonical()))
                &&& next == self.at(next.step)
            },
            Err(None) => next == self.failing(UploadFault::NoReadablePath, None),
            Err(Some(fault)) => next.step matches UploadStep::RecordFailure {
                fault: UploadFault::Locator(error),
                object: None,
                attempted_at,
            } && error@ == fault && attempted_at == self.attempted_at && next == self.at(next.step),
        }
    }

    /// What follows on each reply. A reply that does not answer the step changes nothing.
    pub open spec fn follows(self, reply: UploadReply, next: UploadAttempt) -> bool {
        match (self.step, reply) {
            (UploadStep::NotifyStarted, UploadReply::Done) => next == self.at(
                UploadStep::ReadIntent,
            ),
            (UploadStep::ReadIntent, UploadReply::Intent(Err(detail))) => next == self.failing(
                UploadFault::Database(detail),
                None,
            ),
            (
                UploadStep::ReadIntent,
                UploadReply::Intent(Ok(Some(MakeRemoteIntentState::Cancelling))),
            ) => next == self.cancelling(self.job.state),
            (UploadStep::ReadIntent, UploadReply::Intent(Ok(_))) => next == self.resumed(),
            (UploadStep::AskProtection, UploadReply::Protection(Err(error))) => next
                == self.failing(UploadFault::Storage(error), None),
            (UploadStep::AskProtection, UploadReply::Protection(Ok(protection))) => self.planned(
                protection,
                next,
            ),
            (UploadStep::Seal { locator, spool_path }, UploadReply::Storage(sealed)) => next
                == match sealed {
                Ok(()) => self.at(UploadStep::AllocateSlot { locator, spool_path }),
                Err(error) => self.failing(UploadFault::Storage(error), None),
            },
            (UploadStep::AllocateSlot { locator, spool_path }, UploadReply::Slot(slot)) => next
                == match slot {
                Ok(slot) => self.at(UploadStep::PrepareObject { locator, slot, spool_path }),
                Err(error) => self.failing(UploadFault::Storage(error), None),
            },
            (UploadStep::PrepareObject { spool_path, .. }, UploadReply::Prepared(prepared)) => next
                == match prepared {
                Ok(stored) => self.at(UploadStep::MarkPrepared { stored, spool_path }),
                Err(error) => self.failing(UploadFault::Storage(error), None),
            },
            (UploadStep::MarkPrepared { stored, spool_path }, UploadReply::Local(marked)) => next
                == match marked {
                Ok(()) => self.recorded(
                    OutboxUploadState::Prepared {
                        authority: RemoteAudience::Store,
                        stored,
                        spool_path,
                    },
                ).at(UploadStep::CreateObject { stored, spool_path }),
                Err(detail) => self.failing(UploadFault::Database(detail), Some(stored)),
            },
            (UploadStep::CreateObject { stored, spool_path }, UploadReply::Storage(created)) => next
                == match created {
                Ok(()) => self.at(UploadStep::VerifyObject { stored, spool_path }),
                Err(error) => self.failing(UploadFault::Storage(error), None),
            },
            (UploadStep::VerifyObject { stored, spool_path }, UploadReply::Storage(verified)) => next
                == match verified {
                Ok(()) => self.at(UploadStep::MarkCreated { stored, spool_path }),
                Err(error) => self.failing(UploadFault::Storage(error), None),
            },
            (UploadStep::MarkCreated { stored, spool_path }, UploadReply::Local(marked)) => next
                == match marked {
                Ok(()) => UploadAttempt {
                    created_this_pass: true,
                    ..self.recorded(
                        OutboxUploadState::Created {
                            authority: RemoteAudience::Store,
                            stored,
                            spool_path,
                        },
                    )
                }.at(UploadStep::NotifyUploaded { stored, spool_path }),
                Err(detail) => self.failing(UploadFault::Database(detail), Some(stored)),
            },
            (UploadStep::NotifyUploaded { stored, spool_path }, UploadReply::Done) => next
                == self.created(stored, spool_path),
            (UploadStep::PopulatePinned { stored, spool_path }, UploadReply::Local(pinned)) => next
                == match pinned {
                Ok(()) => self.at(UploadStep::Finalize { stored, spool_path }),
                Err(detail) => self.failing(UploadFault::Pin(detail), Some(stored)),
            },
            (UploadStep::Finalize { stored, spool_path }, UploadReply::Finalized(done)) => next
                == match done {
                Ok(PostUpload::Waiting) => self.at(
                    UploadStep::Uploaded {
                        made_remote: false,
                        created_this_pass: self.created_this_pass,
                    },
                ),
                Ok(PostUpload::MadeRemote { root_table, root_id }) => self.at(
                    UploadStep::NotifyMadeRemote { root_table, root_id },
                ),
                Ok(PostUpload::Cancelled) => self.at(
                    UploadStep::DeleteObject { stored, spool_path },
                ),
                Err(detail) => self.failing(UploadFault::Database(detail), Some(stored)),
            },
            (UploadStep::NotifyMadeRemote { .. }, UploadReply::Done) => next == self.at(
                UploadStep::Uploaded {
                    made_remote: true,
                    created_this_pass: self.created_this_pass,
                },
            ),
            (UploadStep::DeleteObject { stored, spool_path }, UploadReply::Storage(deleted)) => next
                == match deleted {
                Ok(()) => self.at(UploadStep::RemoveSpool { stored, spool_path }),
                Err(error) => self.failing(UploadFault::CancelStorage(error), None),
            },
            (UploadStep::RemoveSpool { stored, .. }, UploadReply::Local(removed)) => next
                == match removed {
                Ok(()) => self.at(UploadStep::DropCached { stored }),
                Err(detail) => self.failing(UploadFault::CancelSpool(detail), None),
            },
            (UploadStep::DropCached { .. }, UploadReply::Local(dropped)) => next == match dropped {
                Ok(()) => self.at(UploadStep::FinishCancelled),
                Err(detail) => self.failing(UploadFault::CancelCache(detail), None),
            },
            (UploadStep::FinishCancelled, UploadReply::Local(finished)) => next == match finished {
                Ok(()) => self.at(
                    UploadStep::Uploaded { made_remote: false, created_this_pass: false },
                ),
                Err(detail) => self.failing(UploadFault::CancelDatabase(detail), None),
            },
            (UploadStep::RecordFailure { fault, object, .. }, UploadReply::Done) => next == self.at(
                UploadStep::NotifyFailed { fault, object },
            ),
            (UploadStep::NotifyFailed { fault, object }, UploadReply::Done) => next == self.at(
                UploadStep::Failed { fault, object },
            ),
            _ => next == self,
        }
    }

    /// Starts an attempt at a queued upload at `now`.
    pub fn start(job: UploadJob, uploader: String, store_dir: StoreDir, now: &Instant) -> (attempt:
        UploadAttempt)
        requires
            is_moment(*now),
        ensures
            attempt.is_start(),
            attempt.attempted_at@ == rfc3339_text(now.seconds, now.nanos),
            has_plain_year(*now) ==> rfc3339(attempt.attempted_at@) == Ok::<(i64, u32), Seq<char>>(
                (now.seconds, now.nanos),
            ),
            attempt == (UploadAttempt {
                job,
                uploader,
                store_dir,
                attempted_at: attempt.attempted_at,
                created_this_pass: false,
                step: UploadStep::NotifyStarted,
            }),
    {
        UploadAttempt {
            job,
            uploader,
            store_dir,
            attempted_at: format_rfc3339(now),
            created_this_pass: false,
            step: UploadStep::NotifyStarted,
        }
    }

    fn go(self, step: UploadStep) -> (next: UploadAttempt)
        ensures
            next == self.at(step),
    {
        UploadAttempt { step, ..self }
    }

    fn fail(self, fault: UploadFault, object: Option<StoredBlobRef>) -> (next: UploadAttempt)
        ensures
            next == self.failing(fault, object),
    {
        let attempted_at: String = self.attempted_at.clone();
        self.go(UploadStep::RecordFailure { fault, object, attempted_at })
    }

    fn cancel(self) -> (next: UploadAttempt)
        ensures
            next == self.cancelling(self.job.state),
    {
        let step = match &self.job.state {
            OutboxUploadState::Pending => UploadStep::FinishCancelled,
            OutboxUploadState::Prepared { stored, spool_path, .. } => UploadStep::DeleteObject {
                stored: stored.clone(),
                spool_path: spool_path.clone(),
            },
            OutboxUploadState::Created { stored, spool_path, .. } => UploadStep::DeleteObject {
                stored: stored.clone(),
                spool_path: spool_path.clone(),
            },
        };
        self.go(step)
    }

    fn object_is_created(self, stored: StoredBlobRef, spool_path: String) -> (next: UploadAttempt)
        ensures
            next == self.created(stored, spool_path),
    {
        if self.job.retain_pinned {
            self.go(UploadStep::PopulatePinned { stored, spool_path })
        } else {
            self.go(UploadStep::Finalize { stored, spool_path })
        }
    }

    fn resume(self) -> (next: UploadAttempt)
        ensures
            next == self.resumed(),
    {
        let (authority, stored, spool_path, is_created) = match &self.job.state {
            OutboxUploadState::Pending => return self.go(UploadStep::AskProtection),
            OutboxUploadState::Prepared { authority, stored, spool_path } => (
                *authority,
                stored.clone(),
                spool_path.clone(),
                false,
            ),
            OutboxUploadState::Created { authority, stored, spool_path } => (
                *authority,
                stored.clone(),
                spool_path.clone(),
                true,
            ),
        };
        if !authority.same(&RemoteAudience::Store) {
            self.fail(UploadFault::ForeignAuthority, None)
        } else if is_created {
            self.object_is_created(stored, spool_path)
        } else {
            self.go(UploadStep::CreateObject { stored, spool_path })
        }
    }

    fn plan(self, protection: BlobSpoolProtection) -> (next: UploadAttempt)
        ensures
            self.planned(protection, next),
    {
        let built = match protection {
            BlobSpoolProtection::Opaque(key_fingerprint) => BlobLocator::opaque(
                self.job.row.blob.namespace.clone(),
                self.job.row.blob.id.clone(),
                self.uploader.clone(),
                RemoteAudience::Store,
                self.job.row.blob.scope.clone(),
                key_fingerprint,
                self.job.row.plaintext_size,
                self.job.row.plaintext_hash,
            ),
            BlobSpoolProtection::Browsable => {
                let cloud_path: String = match &self.job.row.blob.cloud_path {
                    None => return self.fail(UploadFault::NoReadablePath, None),
                    Some(cloud_path) => cloud_path.clone(),
                };
                BlobLocator::browsable(
                    self.job.row.blob.namespace.clone(),
                    self.job.row.blob.id.clone(),
                    self.uploader.clone(),
                    cloud_path,
                    self.job.row.plaintext_size,
                    self.job.row.plaintext_hash,
                )
            },
        };
        match built {
            Err(error) => self.fail(UploadFault::Locator(error), None),
            Ok(locator) => {
                let spool_path: String = self.store_dir.outbound_blob_spool_path(
                    locator.locator_hash(),
                );
                self.go(UploadStep::Seal { locator, spool_path })
            },
        }
    }

    /// Takes the reply to the present step and decides the next one.
    pub fn next(self, reply: UploadReply) -> (next: UploadAttempt)
        ensures
            self.follows(reply, next),
    {
        let UploadAttempt { job, uploader, store_dir, attempted_at, created_this_pass, step } = self;
        let here = UploadAttempt {
            job,
            uploader,
            store_dir,
            attempted_at,
            created_this_pass,
            step: UploadStep::FinishCancelled,
        };
        match (step, reply) {
            (UploadStep::NotifyStarted, UploadReply::Done) => here.go(UploadStep::ReadIntent),
            (UploadStep::ReadIntent, UploadReply::Intent(Err(detail))) => here.fail(
                UploadFault::Database(detail),
                None,
            ),
            (
                UploadStep::ReadIntent,
                UploadReply::Intent(Ok(Some(MakeRemoteIntentState::Cancelling))),
            ) => here.cancel(),
            (UploadStep::ReadIntent, UploadReply::Intent(Ok(_))) => here.resume(),
            (UploadStep::AskProtection, UploadReply::Protection(Err(error))) => here.fail(
                UploadFault::Storage(error),
                None,
            ),
            (UploadStep::AskProtection, UploadReply::Protection(Ok(protection))) => here.plan(
                protection,
            ),
            (UploadStep::Seal { locator, spool_path }, UploadReply::Storage(sealed)) => match sealed {
                Ok(()) => here.go(UploadStep::AllocateSlot { locator, spool_path }),
                Err(error) => here.fail(UploadFault::Storage(error), None),
            },
            (UploadStep::AllocateSlot { locator, spool_path }, UploadReply::Slot(slot)) => match slot {
                Ok(slot) => here.go(UploadStep::PrepareObject { locator, slot, spool_path }),
                Err(error) => here.fail(UploadFault::Storage(error), None),
            },
            (
                UploadStep::PrepareObject { spool_path, .. },
                UploadReply::Prepared(prepared),
            ) => match prepared {
                Ok(stored) => here.go(UploadStep::MarkPrepared { stored, spool_path }),
                Err(error) => here.fail(UploadFault::Storage(error), None),
            },
            (UploadStep::MarkPrepared { stored, spool_path }, UploadReply::Local(marked)) => match marked {
                Ok(()) => here.record(
                    OutboxUploadState::Prepared {
                        authority: RemoteAudience::Store,
                        stored: stored.clone(),
                        spool_path: spool_path.clone(),
                    },
                ).go(UploadStep::CreateObject { stored, spool_path }),
                Err(detail) => here.fail(UploadFault::Database(detail), Some(stored)),
            },
            (UploadStep::CreateObject { stored, spool_path }, UploadReply::Storage(created)) => match created {
                Ok(()) => here.go(UploadStep::VerifyObject { stored, spool_path }),
                Err(error) => here.fail(UploadFault::Storage(error), None),
            },
            (UploadStep::VerifyObject { stored, spool_path }, UploadReply::Storage(verified)) => match verified {
                Ok(()) => here.go(UploadStep::MarkCreated { stored, spool_path }),
                Err(error) => here.fail(UploadFault::Storage(error), None),
            },
            (UploadStep::MarkCreated { stored, spool_path }, UploadReply::Local(marked)) => match marked {
                Ok(()) => {
                    let recorded = here.record(
                        OutboxUploadState::Created {
                            authority: RemoteAudience::Store,
                            stored: stored.clone(),
                            spool_path: spool_path.clone(),
                        },
                    );
                    UploadAttempt { created_this_pass: true, ..recorded }.go(
                        UploadStep::NotifyUploaded { stored, spool_path },
                    )
                },
                Err(detail) => here.fail(UploadFault::Database(detail), Some(stored)),
            },
            (UploadStep::NotifyUploaded { stored, spool_path }, UploadReply::Done) => here.object_is_created(
                stored,
                spool_path,
            ),
            (
                UploadStep::PopulatePinned { stored, spool_path },
                UploadReply::Local(pinned),
            ) => match pinned {
                Ok(()) => here.go(UploadStep::Finalize { stored, spool_path }),
                Err(detail) => here.fail(UploadFault::Pin(detail), Some(stored)),
            },
            (UploadStep::Finalize { stored, spool_path }, UploadReply::Finalized(done)) => match done {
                Ok(PostUpload::Waiting) => here.go(
                    UploadStep::Uploaded { made_remote: false, created_this_pass },
                ),
                Ok(PostUpload::MadeRemote { root_table, root_id }) => here.go(
                    UploadStep::NotifyMadeRemote { root_table, root_id },
                ),
                Ok(PostUpload::Cancelled) => here.go(
                    UploadStep::DeleteObject { stored, spool_path },
                ),
                Err(detail) => here.fail(UploadFault::Database(detail), Some(stored)),
            },
            (UploadStep::NotifyMadeRemote { .. }, UploadReply::Done) => here.go(
                UploadStep::Uploaded { made_remote: true, created_this_pass },
            ),
            (UploadStep::DeleteObject { stored, spool_path }, UploadReply::Storage(deleted)) => match deleted {
                Ok(()) => here.go(UploadStep::RemoveSpool { stored, spool_path }),
                Err(error) => here.fail(UploadFault::CancelStorage(error), None),
            },
            (UploadStep::RemoveSpool { stored, .. }, UploadReply::Local(removed)) => match removed {
                Ok(()) => here.go(UploadStep::DropCached { stored }),
                Err(detail) => here.fail(UploadFault::CancelSpool(detail), None),
            },
            (UploadStep::DropCached { .. }, UploadReply::Local(dropped)) => match dropped {
                Ok(()) => here.go(UploadStep::FinishCancelled),
                Err(detail) => here.fail(UploadFault::CancelCache(detail), None),
            },
            (UploadStep::FinishCancelled, UploadReply::Local(finished)) => match finished {
                Ok(()) => here.go(
                    UploadStep::Uploaded { made_remote: false, created_this_pass: false },
                ),
                Err(detail) => here.fail(UploadFault::CancelDatabase(detail), None),
            },
            (UploadStep::RecordFailure { fault, object, .. }, UploadReply::Done) => here.go(
                UploadStep::NotifyFailed { fault, object },
            ),
            (UploadStep::NotifyFailed { fault, object }, UploadReply::Done) => here.go(
                UploadStep::Failed { fault, object },
            ),
            (step, _) => here.go(step),
        }
    }

    fn record(self, state: OutboxUploadState) -> (next: UploadAttempt)
        ensures
            next == self.recorded(state),
    {
        let UploadAttempt { job, uploader, store_dir, attempted_at, created_this_pass, step } = self;
        UploadAttempt {
            job: UploadJob { state, ..job },
            uploader,
            store_dir,
            attempted_at,
            created_this_pass,
            step,
        }
    }
}

/// What one attempt did, for the drain to count.
#[derive(Debug)]
pub enum EntryOutcome {
    /// The attempt failed; the entry stays queued.
    NotUploaded(UploadFailure),
    /// The attempt went through. `made_remote` says that it completed its root's
    /// transition, `created_this_pass` that it created the object itself.
    Uploaded { made_remote: bool, created_this_pass: bool },
}

impl UploadAttempt {
    /// The failure that is reported for the attempt.
    pub open spec fn failure_view(self, fault: UploadFault, object: Option<StoredBlobRef>) -> FailureView {
        FailureView {
            entry_id: self.job.id,
            object_key: match object {
                Some(stored) => stored.object.logical_key@,
                None => label_text(self.job.entry_spec()@.operation),
            },
            cause: fault.cause_view(self.job.row),
        }
    }

    /// What the attempt did, once it has ended; the attempt itself before that.
    pub fn outcome(self) -> (outcome: Result<EntryOutcome, UploadAttempt>)
        ensures
            match self.step {
                UploadStep::Uploaded { made_remote, created_this_pass } => outcome == Ok::<
                    EntryOutcome,
                    UploadAttempt,
                >(EntryOutcome::Uploaded { made_remote, created_this_pass }),
                UploadStep::Failed { fault, object } => outcome matches Ok(
                    EntryOutcome::NotUploaded(failure),
                ) && failure@ == self.failure_view(fault, object),
                _ => outcome == Err::<EntryOutcome, UploadAttempt>(self),
            },
    {
        let UploadAttempt { job, uploader, store_dir, attempted_at, created_this_pass, step } = self;
        match step {
            UploadStep::Uploaded { made_remote, created_this_pass } => Ok(
                EntryOutcome::Uploaded { made_remote, created_this_pass },
            ),
            UploadStep::Failed { fault, object } => {
                let object_key: String = match object {
                    Some(stored) => stored.object.logical_key,
                    None => upload_label(&job.entry()),
                };
                Ok(
                    EntryOutcome::NotUploaded(
                        UploadFailure {
                            entry_id: job.id,
                            object_key,
                            cause: fault.into_cause(&job.row),
                        },
                    ),
                )
            },
            step => Err(UploadAttempt { job, uploader, store_dir, attempted_at, created_this_pass, step }),
        }
    }
}

/// How far an upload has come: Pending, then Prepared, then Created.
pub open spec fn upload_rank(state: OutboxUploadState) -> nat {
    match state {
        OutboxUploadState::Pending => 0,
        OutboxUploadState::Prepared { .. } => 1,
        OutboxUploadState::Created { .. } => 2,
    }
}

/// A reply touches nothing of the queue entry but the recorded state, and that only where
/// the step was to record it.
pub proof fn law_upload_records_only_its_state(
    before: UploadAttempt,
    reply: UploadReply,
    after: UploadAttempt,
)
    requires
        before.follows(reply, after),
    ensures
        after.job == (UploadJob { state: after.job.state, ..before.job }),
        after.job.state != before.job.state ==> (match before.step {
            UploadStep::MarkPrepared { .. } => after.job.state is Prepared,
            UploadStep::MarkCreated { .. } => after.job.state is Created,
            _ => false,
        }),
{
}

impl UploadAttempt {
    /// The step agrees with the recorded state: an object is created only once its upload
    /// is recorded as Prepared with that object, and the root is finalized only once the
    /// upload is recorded as Created with it.
    pub open spec fn in_step(self) -> bool {
        match self.step {
            UploadStep::AskProtection => self.job.state is Pending,
            UploadStep::Seal { .. } => self.job.state is Pending,
            UploadStep::AllocateSlot { .. } => self.job.state is Pending,
            UploadStep::PrepareObject { .. } => self.job.state is Pending,
            UploadStep::MarkPrepared { .. } => self.job.state is Pending,
            UploadStep::CreateObject { stored, spool_path } => self.job.state
                == (OutboxUploadState::Prepared {
                authority: RemoteAudience::Store,
                stored,
                spool_path,
            }),
            UploadStep::VerifyObject { stored, spool_path } => self.job.state
                == (OutboxUploadState::Prepared {
                authority: RemoteAudience::Store,
                stored,
                spool_path,
            }),
            UploadStep::MarkCreated { stored, spool_path } => self.job.state
                == (OutboxUploadState::Prepared {
                authority: RemoteAudience::Store,
                stored,
                spool_path,
            }),
            UploadStep::NotifyUploaded { stored, spool_path } => self.job.state
                == (OutboxUploadState::Created {
                authority: RemoteAudience::Store,
                stored,
                spool_path,
            }),
            UploadStep::PopulatePinned { stored, spool_path } => self.job.state
                == (OutboxUploadState::Created {
                authority: RemoteAudience::Store,
                stored,
                spool_path,
            }),
            UploadStep::Finalize { stored, spool_path } => self.job.state
                == (OutboxUploadState::Created {
                authority: RemoteAudience::Store,
                stored,
                spool_path,
            }),
            _ => true,
        }
    }

    /// An attempt that has just started.
    pub open spec fn is_start(self) -> bool {
        self.step == UploadStep::NotifyStarted && !self.created_this_pass
    }
}

/// One step of a run.
#[verifier::opaque]
pub open spec fn upload_leads(before: UploadAttempt, reply: UploadReply, after: UploadAttempt) -> bool {
    before.follows(reply, after)
}

/// A run of an attempt: each of its states follows from the one before by some reply.
pub open spec fn is_upload_run(states: Seq<UploadAttempt>, replies: Seq<UploadReply>) -> bool {
    &&& states.len() == replies.len() + 1
    &&& states[0].is_start()
    &&& forall|i: int|
        0 <= i < replies.len() ==> upload_leads(
            states[i],
            #[trigger] replies[i],
            states[i + 1],
        )
}

proof fn lemma_step_stays_in_step(before: UploadAttempt, reply: UploadReply, after: UploadAttempt)
    requires
        upload_leads(before, reply, after),
        before.in_step(),
        before.created_this_pass ==> before.job.state is Created,
    ensures
        after.in_step(),
        upload_rank(before.job.state) <= upload_rank(after.job.state),
        after.created_this_pass ==> after.job.state is Created,
{
    reveal(upload_leads);
}

proof fn lemma_before_mark_created(before: UploadAttempt, reply: UploadReply, after: UploadAttempt)
    requires
        upload_leads(before, reply, after),
        after.step is MarkCreated,
        before.step != after.step,
    ensures
        before.step == (UploadStep::VerifyObject {
            stored: after.step->MarkCreated_stored,
            spool_path: after.step->MarkCreated_spool_path,
        }),
        reply matches UploadReply::Storage(Ok(_)),
{
    reveal(upload_leads);
}

proof fn lemma_before_verify(before: UploadAttempt, reply: UploadReply, after: UploadAttempt)
    requires
        upload_leads(before, reply, after),
        after.step is VerifyObject,
        before.step != after.step,
    ensures
        before.step == (UploadStep::CreateObject {
            stored: after.step->VerifyObject_stored,
            spool_path: after.step->VerifyObject_spool_path,
        }),
        reply matches UploadReply::Storage(Ok(_)),
{
    reveal(upload_leads);
}

/// Whatever the operations reply, at every point of every attempt: the step agrees with
/// the recorded state, the upload has not moved backward since any earlier point, and the
/// attempt claims to have created the object only where the upload is recorded as Created.
pub proof fn law_upload_run_is_in_step(
    states: Seq<UploadAttempt>,
    replies: Seq<UploadReply>,
    early: int,
    late: int,
)
    requires
        is_upload_run(states, replies),
        0 <= early <= late < states.len(),
    ensures
        states[late].in_step(),
        upload_rank(states[early].job.state) <= upload_rank(states[late].job.state),
        states[late].created_this_pass ==> states[late].job.state is Created,
    decreases late,
{
    if late > 0 {
        law_upload_run_is_in_step(
            states,
            replies,
            if early < late {
                early
            } else {
                late - 1
            },
            late - 1,
        );
        assert(upload_leads(states[late - 1], replies[late - 1], states[late - 1 + 1]));
        lemma_step_stays_in_step(states[late - 1], replies[late - 1], states[late]);
    }
}

/// An upload is recorded as Created only by an attempt that first created the object and
/// then verified it: the two preceding steps were those operations, on the same object,
/// and both succeeded.
pub proof fn law_created_means_verified(
    states: Seq<UploadAttempt>,
    replies: Seq<UploadReply>,
    i: int,
    j: int,
    k: int,
    stored: StoredBlobRef,
    spool_path: String,
)
    requires
        is_upload_run(states, replies),
        0 <= i < j < k < states.len(),
        states[k].step == (UploadStep::MarkCreated { stored, spool_path }),
        states[j].step != states[k].step && forall|m: int|
            j < m < k ==> (#[trigger] states[m]).step == states[k].step,
        states[i].step != states[j].step && forall|m: int|
            i < m < j ==> (#[trigger] states[m]).step == states[j].step,
    ensures
        states[j].step == (UploadStep::VerifyObject { stored, spool_path }),
        replies[j] matches UploadReply::Storage(Ok(_)),
        states[i].step == (UploadStep::CreateObject { stored, spool_path }),
        replies[i] matches UploadReply::Storage(Ok(_)),
{
    assert(upload_leads(states[j], replies[j], states[j + 1]));
    assert(states[j + 1].step == states[k].step);
    lemma_before_mark_created(states[j], replies[j], states[j + 1]);
    assert(upload_leads(states[i], replies[i], states[i + 1]));
    assert(states[i + 1].step == states[j].step);
    lemma_before_verify(states[i], replies[i], states[i + 1]);
}

/// A cancelled upload leaves the queue last: where it has an object, the object is
/// deleted first, then the spool, then the cached copies, and each only after the one
/// before succeeded.
pub proof fn law_cancelled_upload_is_undone_before_it_is_forgotten(
    before: UploadAttempt,
    reply: UploadReply,
    after: UploadAttempt,
)
    requires
        before.follows(reply, after),
        before.step != after.step,
    ensures
        after.step == UploadStep::FinishCancelled ==> {
            ||| before.step == UploadStep::ReadIntent && before.job.state is Pending
            ||| before.step is DropCached && reply matches UploadReply::Local(Ok(_))
        },
        after.step is DropCached ==> before.step is RemoveSpool
            && reply matches UploadReply::Local(Ok(_)),
        after.step is RemoveSpool ==> before.step is DeleteObject
            && reply matches UploadReply::Storage(Ok(_)),
{
}

/// A failed attempt leaves the entry as it was recorded, to be tried again, and is
/// recorded with the time at which the attempt started.
pub proof fn law_failure_keeps_the_entry(
    before: UploadAttempt,
    reply: UploadReply,
    after: UploadAttempt,
)
    requires
        before.follows(reply, after),
        after.step is RecordFailure || after.step is NotifyFailed || after.step is Failed,
    ensures
        after.job == before.job,
        after.attempted_at == before.attempted_at,
        after.step is RecordFailure && before.step != after.step ==> after.step->attempted_at
            == before.attempted_at,
{
}

/// How many operations an attempt has at most before it.
pub open spec fn steps_left(step: UploadStep) -> nat {
    match step {
        UploadStep::NotifyStarted => 20,
        UploadStep::ReadIntent => 19,
        UploadStep::AskProtection => 18,
        UploadStep::Seal { .. } => 17,
        UploadStep::AllocateSlot { .. } => 16,
        UploadStep::PrepareObject { .. } => 15,
        UploadStep::MarkPrepared { .. } => 14,
        UploadStep::CreateObject { .. } => 13,
        UploadStep::VerifyObject { .. } => 12,
        UploadStep::MarkCreated { .. } => 11,
        UploadStep::NotifyUploaded { .. } => 10,
        UploadStep::PopulatePinned { .. } => 9,
        UploadStep::Finalize { .. } => 8,
        UploadStep::NotifyMadeRemote { .. } => 7,
        UploadStep::DeleteObject { .. } => 6,
        UploadStep::RemoveSpool { .. } => 5,
        UploadStep::DropCached { .. } => 4,
        UploadStep::FinishCancelled => 3,
        UploadStep::RecordFailure { .. } => 2,
        UploadStep::NotifyFailed { .. } => 1,
        UploadStep::Failed { .. } => 0,
        UploadStep::Uploaded { .. } => 0,
    }
}

/// Every attempt ends: a reply either does not answer the step and changes nothing, or
/// brings the attempt closer to its end.
pub proof fn law_upload_attempt_ends(
    before: UploadAttempt,
    reply: UploadReply,
    after: UploadAttempt,
)
    requires
        before.follows(reply, after),
    ensures
        after == before || steps_left(after.step) < steps_left(before.step),
{
}

/// The result of one pass over the upload queue.
#[derive(Debug)]
pub struct DrainOutcome {
    /// How many objects this pass created.
    pub uploaded: usize,
    /// The pass stopped early because an upload completed its root's transition, so that
    /// the root is published without waiting for the rest of the queue.
    pub yielded_for_publish: bool,
    /// The entries that failed.
    pub failures: UploadFailures,
}

/// One pass over the upload queue: which entries are attempted, and when no more are.
pub struct UploadDrain {
    pending: VecDeque<OutboxEntry>,
    now: Instant,
    limit: TransferLimit,
    inflight: usize,
    stop_admitting: bool,
    uploaded: usize,
    yielded_for_publish: bool,
    failures: Vec<UploadFailure>,
}

/// What an [`UploadDrain`] holds.
pub ghost struct DrainView {
    /// The entries that were not looked at yet, in queue order.
    pub pending: Seq<OutboxEntry>,
    /// The time of the pass.
    pub now: Instant,
    /// How many attempts may run at once.
    pub limit: nat,
    /// How many attempts run.
    pub inflight: nat,
    /// No further entry is attempted in this pass.
    pub stopped: bool,
    /// How many objects were created.
    pub uploaded: nat,
    /// An upload completed its root's transition.
    pub yielded: bool,
    /// The entries that failed, in the order their attempts ended.
    pub failures: Seq<UploadFailure>,
}

/// How many entries at the front of the queue still wait for their retry window.
pub open spec fn waiting_prefix(pending: Seq<OutboxEntry>, now: Instant) -> nat
    decreases pending.len(),
{
    if pending.len() > 0 && entry_waits(pending[0], now) {
        1 + waiting_prefix(pending.skip(1), now)
    } else {
        0
    }
}

/// Whether an entry still waits for its retry window.
pub open spec fn entry_waits(entry: OutboxEntry, now: Instant) -> bool {
    in_backoff(entry@.attempt_count as int, entry@.last_attempt_at, now)
}

impl DrainView {
    /// Whether another entry may be attempted now.
    pub open spec fn may_admit(self) -> bool {
        !self.stopped && self.inflight < self.limit
    }

    /// What an admission does: nothing while no entry may be attempted; a pause stops the
    /// pass; otherwise the entries that wait are skipped and the first that is due is
    /// attempted.
    pub open spec fn admission(self, paused: bool) -> (DrainView, Option<OutboxEntry>) {
        let skipped = waiting_prefix(self.pending, self.now) as int;
        if !self.may_admit() {
            (self, None)
        } else if paused {
            (DrainView { stopped: true, ..self }, None)
        } else if skipped < self.pending.len() {
            (
                DrainView {
                    pending: self.pending.skip(skipped + 1),
                    inflight: self.inflight + 1,
                    ..self
                },
                Some(self.pending[skipped]),
            )
        } else {
            (DrainView { pending: Seq::empty(), ..self }, None)
        }
    }

    /// What the end of an attempt does.
    pub open spec fn absorbed(self, outcome: EntryOutcome) -> DrainView {
        match outcome {
            EntryOutcome::NotUploaded(failure) => DrainView {
                inflight: (self.inflight - 1) as nat,
                failures: self.failures.push(failure),
                ..self
            },
            EntryOutcome::Uploaded { made_remote, created_this_pass } => DrainView {
                inflight: (self.inflight - 1) as nat,
                uploaded: if created_this_pass {
                    self.uploaded + 1
                } else {
                    self.uploaded
                },
                yielded: self.yielded || made_remote,
                stopped: self.stopped || made_remote,
                ..self
            },
        }
    }
}

proof fn lemma_waiting_prefix(pending: Seq<OutboxEntry>, now: Instant)
    ensures
        waiting_prefix(pending, now) <= pending.len(),
    decreases pending.len(),
{
    if pending.len() > 0 && entry_waits(pending[0], now) {
        lemma_waiting_prefix(pending.skip(1), now);
    }
}

impl View for UploadDrain {
    type V = DrainView;

    closed spec fn view(&self) -> DrainView {
        DrainView {
            pending: self.pending@,
            now: self.now,
            limit: self.limit.count(),
            inflight: self.inflight as nat,
            stopped: self.stop_admitting,
            uploaded: self.uploaded as nat,
            yielded: self.yielded_for_publish,
            failures: self.failures@,
        }
    }
}

impl UploadDrain {
    #[verifier::type_invariant]
    closed spec fn sound(self) -> bool {
        &&& self.inflight <= self.limit.count()
        &&& self.uploaded + self.inflight + self.pending@.len() <= usize::MAX
    }

    /// Starts a pass over the queued uploads at `now`.
    pub fn start(uploads: VecDeque<OutboxEntry>, now: Instant, limit: TransferLimit) -> (drain:
        UploadDrain)
        ensures
            drain@ == (DrainView {
                pending: uploads@,
                now,
                limit: limit.count(),
                inflight: 0,
                stopped: false,
                uploaded: 0,
                yielded: false,
                failures: Seq::empty(),
            }),
    {
        let waiting: usize = uploads.len();
        assert(uploads@.len() == waiting);
        UploadDrain {
            pending: uploads,
            now,
            limit,
            inflight: 0,
            stop_admitting: false,
            uploaded: 0,
            yielded_for_publish: false,
            failures: Vec::new(),
        }
    }

    /// Whether the queue is empty, so that there is nothing to prepare for.
    pub fn has_pending(&self) -> (pending: bool)
        ensures
            pending == (self@.pending.len() > 0),
    {
        self.pending.len() > 0
    }

    /// Whether another entry may be attempted now; only then is a pause asked for.
    pub fn may_admit(&self) -> (may: bool)
        ensures
            may == self@.may_admit(),
    {
        !self.stop_admitting && self.inflight < self.limit.get()
    }

    /// How many attempts run: never more than the limit.
    pub fn inflight(&self) -> (count: usize)
        ensures
            count == self@.inflight,
            count <= self@.limit,
    {
        proof {
            use_type_invariant(self);
        }
        self.inflight
    }

    /// Takes the next entry to attempt from the queue, unless the uploads are paused.
    pub fn take_next(self, paused: bool) -> (admitted: (UploadDrain, Option<OutboxEntry>))
        ensures
            (admitted.0@, admitted.1) == self@.admission(paused),
    {
        proof {
            use_type_invariant(&self);
        }
        let may: bool = self.may_admit();
        let UploadDrain {
            pending,
            now,
            limit,
            inflight,
            stop_admitting,
            uploaded,
            yielded_for_publish,
            failures,
        } = self;
        if !may {
            return (
                UploadDrain {
                    pending,
                    now,
                    limit,
                    inflight,
                    stop_admitting,
                    uploaded,
                    yielded_for_publish,
                    failures,
                },
                None,
            );
        }
        if paused {
            return (
                UploadDrain {
                    pending,
                    now,
                    limit,
                    inflight,
                    stop_admitting: true,
                    uploaded,
                    yielded_for_publish,
                    failures,
                },
                None,
            );
        }
        let ghost all = pending@;
        let ghost total = waiting_prefix(all, now);
        let mut pending: VecDeque<OutboxEntry> = pending;
        let ghost mut taken: int = 0;
        proof {
            assert(all.skip(0) =~= all);
            lemma_waiting_prefix(all, now);
        }
        loop
            invariant
                0 <= taken <= all.len(),
                pending@ == all.skip(taken),
                total == taken + waiting_prefix(all.skip(taken), now),
                total <= all.len(),
                uploaded + inflight + all.len() <= usize::MAX,
                inflight < limit.count(),
                self@.pending == all,
                self@.now == now,
                self@.limit == limit.count(),
                self@.inflight == inflight,
                self@.stopped == stop_admitting,
                self@.uploaded == uploaded,
                self@.yielded == yielded_for_publish,
                self@.failures == failures@,
                self@.may_admit(),
                !paused,
                total == waiting_prefix(all, now),
            decreases all.len() - taken,
        {
            match pending.pop_front() {
                None => {
                    assert(all.skip(taken).len() == 0);
                    assert(pending@ =~= Seq::<OutboxEntry>::empty());
                    return (
                        UploadDrain {
                            pending,
                            now,
                            limit,
                            inflight,
                            stop_admitting,
                            uploaded,
                            yielded_for_publish,
                            failures,
                        },
                        None,
                    );
                },
                Some(entry) => {
                    assert(entry == all.skip(taken)[0]);
                    assert(entry == all[taken]);
                    assert(pending@ =~= all.skip(taken + 1));
                    assert(all.skip(taken).skip(1) =~= all.skip(taken + 1));
                    if !entry_in_backoff(&entry, &now) {
                        assert(total == taken);
                        return (
                            UploadDrain {
                                pending,
                                now,
                                limit,
                                inflight: inflight + 1,
                                stop_admitting,
                                uploaded,
                                yielded_for_publish,
                                failures,
                            },
                            Some(entry),
                        );
                    }
                    proof {
                        taken = taken + 1;
                    }
                },
            }
        }
    }

    /// Counts the end of one running attempt.
    pub fn absorb(self, outcome: EntryOutcome) -> (drain: UploadDrain)
        requires
            self@.inflight > 0,
        ensures
            drain@ == self@.absorbed(outcome),
    {
        proof {
            use_type_invariant(&self);
        }
        let UploadDrain {
            pending,
            now,
            limit,
            inflight,
            stop_admitting,
            uploaded,
            yielded_for_publish,
            failures,
        } = self;
        let mut failures: Vec<UploadFailure> = failures;
        match outcome {
            EntryOutcome::NotUploaded(failure) => {
                failures.push(failure);
                UploadDrain {
                    pending,
                    now,
                    limit,
                    inflight: inflight - 1,
                    stop_admitting,
                    uploaded,
                    yielded_for_publish,
                    failures,
                }
            },
            EntryOutcome::Uploaded { made_remote, created_this_pass } => UploadDrain {
                pending,
                now,
                limit,
                inflight: inflight - 1,
                stop_admitting: stop_admitting || made_remote,
                uploaded: if created_this_pass {
                    uploaded + 1
                } else {
                    uploaded
                },
                yielded_for_publish: yielded_for_publish || made_remote,
                failures,
            },
        }
    }

    /// What the pass did, once no attempt runs any more.
    pub fn finish(self) -> (outcome: DrainOutcome)
        requires
            self@.inflight == 0,
        ensures
            outcome.uploaded == self@.uploaded,
            outcome.yielded_for_publish == self@.yielded,
            outcome.failures.0@ == self@.failures,
    {
        DrainOutcome {
            uploaded: self.uploaded,
            yielded_for_publish: self.yielded_for_publish,
            failures: UploadFailures(self.failures),
        }
    }
}

/// The queue is attempted in order: what an admission leaves is the rest of the queue
/// behind the entry it took, and every entry it passed over waits for its retry window.
pub proof fn law_drain_keeps_queue_order(drain: DrainView, paused: bool)
    ensures
        ({
            let (after, entry) = drain.admission(paused);
            match entry {
                Some(e) => exists|k: int|
                    {
                        &&& 0 <= k < drain.pending.len()
                        &&& e == #[trigger] drain.pending[k]
                        &&& !entry_waits(e, drain.now)
                        &&& after.pending == drain.pending.skip(k + 1)
                        &&& forall|j: int|
                            0 <= j < k ==> entry_waits(#[trigger] drain.pending[j], drain.now)
                    },
                None => after.pending == drain.pending || after.pending.len() == 0,
            }
        }),
{
    let k = waiting_prefix(drain.pending, drain.now) as int;
    lemma_waiting_prefix_is_maximal(drain.pending, drain.now);
    if k < drain.pending.len() {
        assert(drain.pending[k] == drain.pending[k]);
    }
}

proof fn lemma_waiting_prefix_is_maximal(pending: Seq<OutboxEntry>, now: Instant)
    ensures
        waiting_prefix(pending, now) <= pending.len(),
        forall|j: int|
            0 <= j < waiting_prefix(pending, now) ==> entry_waits(#[trigger] pending[j], now),
        waiting_prefix(pending, now) < pending.len() ==> !entry_waits(
            pending[waiting_prefix(pending, now) as int],
            now,
        ),
    decreases pending.len(),
{
    if pending.len() > 0 && entry_waits(pending[0], now) {
        let rest = pending.skip(1);
        lemma_waiting_prefix_is_maximal(rest, now);
        assert forall|j: int| 0 <= j < waiting_prefix(pending, now) implies entry_waits(
            #[trigger] pending[j],
            now,
        ) by {
            if j > 0 {
                assert(pending[j] == rest[j - 1]);
            }
        }
    }
}

/// A stopped pass stays stopped and attempts nothing more; what runs is only counted.
pub proof fn law_stopped_drain_admits_nothing(
    drain: DrainView,
    paused: bool,
    outcome: EntryOutcome,
)
    requires
        drain.stopped,
    ensures
        drain.admission(paused) == (drain, None::<OutboxEntry>),
        drain.absorbed(outcome).stopped,
{
}

/// A pause, and an upload that completes its root's transition, both stop the pass.
pub proof fn law_pause_and_publish_stop_the_drain(drain: DrainView, outcome: EntryOutcome)
    ensures
        drain.admission(true).1 is None,
        drain.may_admit() ==> drain.admission(true).0.stopped,
        outcome matches EntryOutcome::Uploaded { made_remote: true, .. } ==> drain.absorbed(
            outcome,
        ).stopped && drain.absorbed(outcome).yielded,
{
}

/// No admission exceeds the limit, and with a limit of one an entry is attempted only
/// when none runs: the pass is serial.
pub proof fn law_drain_stays_within_its_limit(drain: DrainView, paused: bool)
    requires
        drain.inflight <= drain.limit,
    ensures
        drain.admission(paused).0.inflight <= drain.limit,
        drain.limit == 1 && drain.admission(paused).1 is Some ==> drain.inflight == 0,
{
}

/// Upload progress as it is told to observers: only when it changed since the last time.
pub struct UploadProgress {
    /// The last count that was told.
    pub forwarded: u64,
    /// The stored length of the object.
    pub total: u64,
}

impl UploadProgress {
    /// Nothing has been told yet.
    pub fn start(total: u64) -> (progress: UploadProgress)
        ensures
            progress.forwarded == 0,
            progress.total == total,
    {
        UploadProgress { forwarded: 0, total }
    }

    /// At a tick, with `sent` bytes sent so far: what to tell, if anything.
    pub fn tick(&mut self, sent: u64) -> (told: Option<(u64, u64)>)
        ensures
            told == (if sent != old(self).forwarded {
                Some((sent, old(self).total))
            } else {
                None
            }),
            *final(self) == (UploadProgress { forwarded: sent, total: old(self).total }),
    {
        if sent != self.forwarded {
            self.forwarded = sent;
            Some((sent, self.total))
        } else {
            None
        }
    }

    /// When the upload ended: a success is told as complete, a failure is not told here.
    pub fn finish(&self, succeeded: bool) -> (told: Option<(u64, u64)>)
        ensures
            told == (if succeeded {
                Some((self.total, self.total))
            } else {
                None
            }),
    {
        if succeeded {
            Some((self.total, self.total))
        } else {
            None
        }
    }
}

} // verus!
