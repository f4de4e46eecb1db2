//! The database records the blob engine works on: blob-bearing rows and the durable
//! queue of cloud work.

use vstd::prelude::*;

use crate::blob::locator::{RemoteAudience, StoredBlobRef, StoredView};
use crate::blob::{same_optional_text, optional_text, duplicate_text, BlobRef, BlobRefView};
use crate::digest::ObjectHash;

verus! {

/// Where a row's blob has its authoritative bytes.
#[derive(Debug, Clone, Copy, PartialEq, Eq)]
pub enum RowBlobAuthority {
    /// On this device.
    Local,
    /// In the cloud.
    Remote(RemoteAudience),
    /// In the cloud once the object is published; on this device until then.
    PendingRemote(RemoteAudience),
}

impl RowBlobAuthority {
    /// Whether two authorities are the same.
    pub fn same(&self, other: &RowBlobAuthority) -> (same: bool)
        ensures
            same == (*self == *other),
    {
        match (self, other) {
            (RowBlobAuthority::Local, RowBlobAuthority::Local) => true,
            (RowBlobAuthority::Remote(a), RowBlobAuthority::Remote(b)) => a.same(b),
            (RowBlobAuthority::PendingRemote(a), RowBlobAuthority::PendingRemote(b)) => a.same(b),
            _ => false,
        }
    }
}

/// One exact version of a blob-bearing row.
#[derive(Debug)]
pub struct RowBlobRef {
    /// The table the row stands in.
    pub table: String,
    /// The row's primary key.
    pub row_id: String,
    /// The stamp of this version of the row.
    pub row_stamp: String,
    /// The column that carries the blob's id.
    pub column: String,
    /// The blob.
    pub blob: BlobRef,
    /// The plaintext length that the row declares.
    pub plaintext_size: u64,
    /// The plaintext hash that the row declares.
    pub plaintext_hash: ObjectHash,
    /// Where the authoritative bytes are.
    pub authority: RowBlobAuthority,
    /// The stored object, once the row has one.
    pub stored: Option<StoredBlobRef>,
}

/// What a [`RowBlobRef`] says.
pub ghost struct RowView {
    pub table: Seq<char>,
    pub row_id: Seq<char>,
    pub row_stamp: Seq<char>,
    pub column: Seq<char>,
    pub blob: BlobRefView,
    pub plaintext_size: u64,
    pub plaintext_hash: ObjectHash,
    pub authority: RowBlobAuthority,
    pub stored: Option<StoredView>,
}

/// What an optional stored reference says.
pub open spec fn optional_stored(stored: Option<StoredBlobRef>) -> Option<StoredView> {
    match stored {
        None => None,
        Some(s) => Some(s@),
    }
}

impl View for RowBlobRef {
    type V = RowView;

    open spec fn view(&self) -> RowView {
        RowView {
            table: self.table@,
            row_id: self.row_id@,
            row_stamp: self.row_stamp@,
            column: self.column@,
            blob: self.blob@,
            plaintext_size: self.plaintext_size,
            plaintext_hash: self.plaintext_hash,
            authority: self.authority,
            stored: optional_stored(self.stored),
        }
    }
}

impl Clone for RowBlobRef {
    fn clone(&self) -> (copy: RowBlobRef)
        ensures
            copy == *self,
    {
        RowBlobRef {
            table: self.table.clone(),
            row_id: self.row_id.clone(),
            row_stamp: self.row_stamp.clone(),
            column: self.column.clone(),
            blob: self.blob.clone(),
            plaintext_size: self.plaintext_size,
            plaintext_hash: self.plaintext_hash,
            authority: self.authority,
            stored: match &self.stored {
                None => None,
                Some(stored) => Some(stored.clone()),
            },
        }
    }
}

/// Whether two optional stored references say the same.
pub fn same_optional_stored(a: &Option<StoredBlobRef>, b: &Option<StoredBlobRef>) -> (same: bool)
    ensures
        same == (optional_stored(*a) == optional_stored(*b)),
{
    match (a, b) {
        (None, None) => true,
        (Some(x), Some(y)) => x.same(y),
        _ => false,
    }
}

/// Whether two references name the same version of the same row, with the same blob.
pub open spec fn is_same_version(left: RowView, right: RowView) -> bool {
    left == (RowView { authority: left.authority, stored: left.stored, ..right })
}

/// Whether two references name the same version of the same row, with the same blob;
/// where the blob's bytes are may differ.
pub fn same_row_blob_version(left: &RowBlobRef, right: &RowBlobRef) -> (same: bool)
    ensures
        same == is_same_version(left@, right@),
{
    left.table == right.table && left.row_id == right.row_id && left.row_stamp == right.row_stamp
        && left.column == right.column && left.blob.same(&right.blob) && left.plaintext_size
        == right.plaintext_size && left.plaintext_hash.same(&right.plaintext_hash)
}

impl RowBlobRef {
    /// Whether two references say the same.
    pub fn same(&self, other: &RowBlobRef) -> (same: bool)
        ensures
            same == (self@ == other@),
    {
        same_row_blob_version(self, other) && self.authority.same(&other.authority)
            && same_optional_stored(&self.stored, &other.stored)
    }
}

/// How far an upload has come. Each state is durable, and an upload only moves forward.
#[derive(Debug)]
pub enum OutboxUploadState {
    /// Nothing has been done yet.
    Pending,
    /// The sealed bytes wait in the spool and their object is allocated.
    Prepared { authority: RemoteAudience, stored: StoredBlobRef, spool_path: String },
    /// The object exists and was verified.
    Created { authority: RemoteAudience, stored: StoredBlobRef, spool_path: String },
}

/// What an [`OutboxUploadState`] says.
pub ghost enum UploadStateView {
    Pending,
    Prepared { authority: RemoteAudience, stored: StoredView, spool_path: Seq<char> },
    Created { authority: RemoteAudience, stored: StoredView, spool_path: Seq<char> },
}

impl View for OutboxUploadState {
    type V = UploadStateView;

    open spec fn view(&self) -> UploadStateView {
        match self {
            OutboxUploadState::Pending => UploadStateView::Pending,
            OutboxUploadState::Prepared { authority, stored, spool_path } => {
                UploadStateView::Prepared {
                    authority: *authority,
                    stored: stored@,
                    spool_path: spool_path@,
                }
            },
            OutboxUploadState::Created { authority, stored, spool_path } => {
                UploadStateView::Created {
                    authority: *authority,
                    stored: stored@,
                    spool_path: spool_path@,
                }
            },
        }
    }
}

impl Clone for OutboxUploadState {
    fn clone(&self) -> (copy: OutboxUploadState)
        ensures
            copy == *self,
    {
        match self {
            OutboxUploadState::Pending => OutboxUploadState::Pending,
            OutboxUploadState::Prepared { authority, stored, spool_path } => {
                OutboxUploadState::Prepared {
                    authority: *authority,
                    stored: stored.clone(),
                    spool_path: spool_path.clone(),
                }
            },
            OutboxUploadState::Created { authority, stored, spool_path } => {
                OutboxUploadState::Created {
                    authority: *authority,
                    stored: stored.clone(),
                    spool_path: spool_path.clone(),
                }
            },
        }
    }
}

impl OutboxUploadState {
    /// Whether two states say the same.
    pub fn same(&self, other: &OutboxUploadState) -> (same: bool)
        ensures
            same == (self@ == other@),
    {
        match (self, other) {
            (OutboxUploadState::Pending, OutboxUploadState::Pending) => true,
            (
                OutboxUploadState::Prepared { authority: aa, stored: sa, spool_path: pa },
                OutboxUploadState::Prepared { authority: ab, stored: sb, spool_path: pb },
            ) => aa.same(ab) && sa.same(sb) && *pa == *pb,
            (
                OutboxUploadState::Created { authority: aa, stored: sa, spool_path: pa },
                OutboxUploadState::Created { authority: ab, stored: sb, spool_path: pb },
            ) => aa.same(ab) && sa.same(sb) && *pa == *pb,
            _ => false,
        }
    }
}

/// A queued piece of cloud work.
#[derive(Debug)]
pub enum OutboxOperation {
    /// Upload one row's blob as part of making its root remote.
    Upload {
        root_table: String,
        root_id: String,
        row: RowBlobRef,
        source_path: String,
        retain_pinned: bool,
        state: OutboxUploadState,
    },
    /// Record the deletion of one stored blob.
    Delete { stored: StoredBlobRef },
}

/// What an [`OutboxOperation`] says.
pub ghost enum OperationView {
    Upload {
        root_table: Seq<char>,
        root_id: Seq<char>,
        row: RowView,
        source_path: Seq<char>,
        retain_pinned: bool,
        state: UploadStateView,
    },
    Delete { stored: StoredView },
}

impl View for OutboxOperation {
    type V = OperationView;

    open spec fn view(&self) -> OperationView {
        match self {
            OutboxOperation::Upload {
                root_table,
                root_id,
                row,
                source_path,
                retain_pinned,
                state,
            } => OperationView::Upload {
                root_table: root_table@,
                root_id: root_id@,
                row: row@,
                source_path: source_path@,
                retain_pinned: *retain_pinned,
                state: state@,
            },
            OutboxOperation::Delete { stored } => OperationView::Delete { stored: stored@ },
        }
    }
}

impl Clone for OutboxOperation {
    fn clone(&self) -> (copy: OutboxOperation)
        ensures
            copy == *self,
    {
        match self {
            OutboxOperation::Upload {
                root_table,
                root_id,
                row,
                source_path,
                retain_pinned,
                state,
            } => OutboxOperation::Upload {
                root_table: root_table.clone(),
                root_id: root_id.clone(),
                row: row.clone(),
                source_path: source_path.clone(),
                retain_pinned: *retain_pinned,
                state: state.clone(),
            },
            OutboxOperation::Delete { stored } => OutboxOperation::Delete { stored: stored.clone() },
        }
    }
}

impl OutboxOperation {
    /// Whether two operations say the same.
    pub fn same(&self, other: &OutboxOperation) -> (same: bool)
        ensures
            same == (self@ == other@),
    {
        match (self, other) {
            (
                OutboxOperation::Upload {
                    root_table: ta,
                    root_id: ia,
                    row: ra,
                    source_path: pa,
                    retain_pinned: ka,
                    state: sa,
                },
                OutboxOperation::Upload {
                    root_table: tb,
                    root_id: ib,
                    row: rb,
                    source_path: pb,
                    retain_pinned: kb,
                    state: sb,
                },
            ) => *ta == *tb && *ia == *ib && ra.same(rb) && *pa == *pb && *ka == *kb && sa.same(sb),
            (OutboxOperation::Delete { stored: a }, OutboxOperation::Delete { stored: b }) => a.same(
                b,
            ),
            _ => false,
        }
    }
}

/// One entry of the durable queue of cloud work.
#[derive(Debug)]
pub struct OutboxEntry {
    /// The entry's key.
    pub id: i64,
    /// What is to be done.
    pub operation: OutboxOperation,
    /// How many attempts have failed.
    pub attempt_count: i64,
    /// When the last attempt failed, as RFC 3339 text.
    pub last_attempt_at: Option<String>,
}

/// What an [`OutboxEntry`] says.
pub ghost struct EntryView {
    pub id: i64,
    pub operation: OperationView,
    pub attempt_count: i64,
    pub last_attempt_at: Option<Seq<char>>,
}

impl View for OutboxEntry {
    type V = EntryView;

    open spec fn view(&self) -> EntryView {
        EntryView {
            id: self.id,
            operation: self.operation@,
            attempt_count: self.attempt_count,
            last_attempt_at: optional_text(self.last_attempt_at),
        }
    }
}

impl Clone for OutboxEntry {
    fn clone(&self) -> (copy: OutboxEntry)
        ensures
            copy == *self,
    {
        OutboxEntry {
            id: self.id,
            operation: self.operation.clone(),
            attempt_count: self.attempt_count,
            last_attempt_at: duplicate_text(&self.last_attempt_at),
        }
    }
}

impl OutboxEntry {
    /// Whether two entries say the same.
    pub fn same(&self, other: &OutboxEntry) -> (same: bool)
        ensures
            same == (self@ == other@),
    {
        self.id == other.id && self.operation.same(&other.operation) && self.attempt_count
            == other.attempt_count && same_optional_text(
            &self.last_attempt_at,
            &other.last_attempt_at,
        )
    }
}

/// How far a make-remote transition of one root has come.
#[derive(Debug)]
pub enum MakeRemoteIntentState {
    /// Its blobs are being uploaded.
    Uploading,
    /// It was cancelled and its uploads are being undone.
    Cancelling,
    /// The write with this id publishes it.
    Publishing(String),
}

/// A user's own file that a row's blob is read from.
#[derive(Debug)]
pub struct ExternalBlob {
    /// Where the file is.
    pub path: String,
    /// Its length when it was registered.
    pub size: u64,
}

/// Whether a live row still refers to a stored blob.
#[derive(Debug, Clone, Copy, PartialEq, Eq, Structural)]
pub enum StoredBlobReferenceState {
    /// A live row refers to it and is remote.
    LiveRemote,
    /// No live remote row refers to it.
    NotLiveRemote,
    /// A live row refers to it, and whether that row is remote cannot be told.
    Unresolved,
}

} // verus!
