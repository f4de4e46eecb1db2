//! The device's cache of remote blobs.
//!
//! A cached copy is a file named by its exact locator, in one of two folders that are
//! split by namespace: `pinned/`, which is kept, and `cache/`, which is evictable. There is
//! no table beside them: presence is the file, and whether it is kept is its folder.
//!
//! Reads go by authority, never by probing every store: a remote blob is served from the
//! cache or the cloud, a local one from its one home by provenance. A whole read checks
//! length and hash against the row; a file that does not match fails loudly and is never
//! replaced.

use vstd::prelude::*;
use vstd::string::*;

use crate::blob::local_files::LocalBlobError;
use crate::blob::locator::StoredBlobRef;
use crate::blob::{BlobRef, Provenance};
use crate::database::DbError;
use crate::digest::{hex_text, sha256, ObjectHash};
use crate::outbox::{ExternalBlob, RowBlobAuthority, RowBlobRef};
use crate::storage::StorageError;
use crate::store_dir::{cache_path_text, pinned_path_text, token_fault, PathTokenError, StoreDir};
use crate::text::{decimal, decimal_text};

verus! {

/// The state key that holds the cache budget of a namespace.
pub open spec fn cache_budget_key_text(namespace: Seq<char>) -> Seq<char> {
    "cache_budget:"@ + namespace
}

/// The state key that holds the cache budget of `namespace`. A namespace without one has
/// no budget, and nothing of it is evicted.
pub fn cache_budget_state_key(namespace: &str) -> (key: String)
    ensures
        key@ == cache_budget_key_text(namespace@),
{
    "cache_budget:".to_owned().concat(namespace)
}

/// Each namespace has a budget of its own: two namespaces never share a key.
pub proof fn law_budget_keys_are_apart(a: Seq<char>, b: Seq<char>)
    requires
        cache_budget_key_text(a) == cache_budget_key_text(b),
    ensures
        a == b,
{
    let prefix = "cache_budget:"@;
    assert((prefix + a).skip(prefix.len() as int) =~= a);
    assert((prefix + b).skip(prefix.len() as int) =~= b);
}

/// Why a cache operation failed.
#[derive(Debug)]
pub enum BlobCacheError {
    /// A value that cannot stand in a path.
    Path(PathTokenError),
    /// A cloud operation failed.
    Storage(StorageError),
    /// A remote blob is needed and no cloud home is connected.
    NoCloudHome,
    /// A failure of the local disk, in words.
    Io(String),
    /// The database failed.
    Metadata(DbError),
    /// The storage could not be set up.
    StorageSetup(String),
    /// The user's file could not be read. There is no other copy.
    ExternalMissing { id: String, path: String, source: String },
    /// The user's file has another length than when it was registered.
    ExternalSizeMismatch { id: String, path: String },
    /// A local blob is not in the local store, its only home.
    NoLocalCopy { namespace: String, id: String },
    /// Whether the blob is local or remote cannot be told.
    LocalityUnresolved { id: String },
    /// A user-provided local blob has no registered file.
    NoExternalRef { id: String },
    /// A file is at its exact path with other contents than the row declares.
    LocalIntegrity {
        path: String,
        expected_size: u64,
        actual_size: u64,
        expected_hash: ObjectHash,
        actual_hash: ObjectHash,
    },
}

impl BlobCacheError {
    /// The error in words.
    pub open spec fn message_text(self) -> Seq<char> {
        match self {
            BlobCacheError::Path(fault) => "blob path error: "@ + fault.message_text(),
            BlobCacheError::Storage(error) => "blob cache storage error: "@
                + error@.message_text(),
            BlobCacheError::NoCloudHome => "no cloud home connected to read a Remote blob"@,
            BlobCacheError::Io(detail) => "blob cache I/O error: "@ + detail@,
            BlobCacheError::Metadata(error) => "blob metadata error: "@ + error@.message_text(),
            BlobCacheError::StorageSetup(detail) => "sync storage setup failed: "@ + detail@,
            BlobCacheError::ExternalMissing { id, path, source } => "external blob "@ + id@
                + " could not be read at "@ + path@ + ": "@ + source@,
            BlobCacheError::ExternalSizeMismatch { id, path } => "external blob "@ + id@ + " at "@
                + path@ + " no longer matches its registered size"@,
            BlobCacheError::NoLocalCopy { namespace, id } => "local blob "@ + namespace@ + "/"@
                + id@ + " is gated Local but absent from the local store"@,
            BlobCacheError::LocalityUnresolved { id } => "cannot resolve locality for blob "@ + id@
                + ": no locality root determines where it lives"@,
            BlobCacheError::NoExternalRef { id } => "user-provided Local blob "@ + id@
                + " has no registered external ref"@,
            BlobCacheError::LocalIntegrity {
                path,
                expected_size,
                actual_size,
                expected_hash,
                actual_hash,
            } => "local blob "@ + path@ + " has size/hash "@ + decimal(actual_size as nat) + "/"@
                + hex_text(actual_hash@) + ", expected "@ + decimal(expected_size as nat) + "/"@
                + hex_text(expected_hash@),
        }
    }

    /// The error in words.
    pub fn message(&self) -> (text: String)
        ensures
            text@ == self.message_text(),
    {
        match self {
            BlobCacheError::Path(fault) => "blob path error: ".to_owned().concat(
                fault.message().as_str(),
            ),
            BlobCacheError::Storage(error) => "blob cache storage error: ".to_owned().concat(
                error.message().as_str(),
            ),
            BlobCacheError::NoCloudHome => "no cloud home connected to read a Remote blob".to_owned(),
            BlobCacheError::Io(detail) => "blob cache I/O error: ".to_owned().concat(
                detail.as_str(),
            ),
            BlobCacheError::Metadata(error) => "blob metadata error: ".to_owned().concat(
                error.message().as_str(),
            ),
            BlobCacheError::StorageSetup(detail) => "sync storage setup failed: ".to_owned().concat(
                detail.as_str(),
            ),
            BlobCacheError::ExternalMissing { id, path, source } => "external blob ".to_owned().concat(
                id.as_str(),
            ).concat(" could not be read at ").concat(path.as_str()).concat(": ").concat(
                source.as_str(),
            ),
            BlobCacheError::ExternalSizeMismatch { id, path } => "external blob ".to_owned().concat(
                id.as_str(),
            ).concat(" at ").concat(path.as_str()).concat(
                " no longer matches its registered size",
            ),
            BlobCacheError::NoLocalCopy { namespace, id } => "local blob ".to_owned().concat(
                namespace.as_str(),
            ).concat("/").concat(id.as_str()).concat(
                " is gated Local but absent from the local store",
            ),
            BlobCacheError::LocalityUnresolved { id } => "cannot resolve locality for blob ".to_owned().concat(
                id.as_str(),
            ).concat(": no locality root determines where it lives"),
            BlobCacheError::NoExternalRef { id } => "user-provided Local blob ".to_owned().concat(
                id.as_str(),
            ).concat(" has no registered external ref"),
            BlobCacheError::LocalIntegrity {
                path,
                expected_size,
                actual_size,
                expected_hash,
                actual_hash,
            } => "local blob ".to_owned().concat(path.as_str()).concat(" has size/hash ").concat(
                decimal_text(*actual_size).as_str(),
            ).concat("/").concat(actual_hash.to_text().as_str()).concat(", expected ").concat(
                decimal_text(*expected_size).as_str(),
            ).concat("/").concat(expected_hash.to_text().as_str()),
        }
    }

    /// The error of a failed local-store operation.
    pub fn from_local(error: LocalBlobError) -> (converted: BlobCacheError)
        ensures
            converted == (match error {
                LocalBlobError::Path(fault) => BlobCacheError::Path(fault),
                LocalBlobError::Io(detail) => BlobCacheError::Io(detail),
            }),
    {
        match error {
            LocalBlobError::Path(fault) => BlobCacheError::Path(fault),
            LocalBlobError::Io(detail) => BlobCacheError::Io(detail),
        }
    }
}

/// The one store that holds a blob's bytes.
#[derive(Debug, Clone, Copy, PartialEq, Eq, Structural)]
pub enum BlobSource {
    /// The cloud, fronted by this device's cache.
    Cache,
    /// The user's own file.
    External,
    /// The local store.
    LocalStore,
}

/// Where a row's blob is read from.
pub open spec fn source_of(row: RowBlobRef) -> BlobSource {
    match row.authority {
        RowBlobAuthority::Remote(_) => BlobSource::Cache,
        _ => match row.blob.provenance {
            Provenance::UserProvided => BlobSource::External,
            Provenance::HostProvided => BlobSource::LocalStore,
        },
    }
}

/// Resolves where a row's blob is read from: its authority first, then, for a blob whose
/// bytes are on this device, its provenance.
pub fn resolve_source(row: &RowBlobRef) -> (source: BlobSource)
    ensures
        source == source_of(*row),
{
    match row.authority {
        RowBlobAuthority::Remote(_) => BlobSource::Cache,
        _ => match row.blob.provenance {
            Provenance::UserProvided => BlobSource::External,
            Provenance::HostProvided => BlobSource::LocalStore,
        },
    }
}

/// A remote blob is never read from this device's local homes, and a local one never from
/// the cloud.
pub proof fn law_source_goes_by_authority(row: RowBlobRef)
    ensures
        row.authority is Remote <==> source_of(row) == BlobSource::Cache,
        !(row.authority is Remote) ==> (source_of(row) == BlobSource::External
            <==> row.blob.provenance == Provenance::UserProvided),
{
}

/// The stored object of a remote row; a row without one has no determinable locality.
pub fn remote_stored_ref(row: &RowBlobRef) -> (stored: Result<&StoredBlobRef, BlobCacheError>)
    ensures
        match row.stored {
            Some(s) => stored matches Ok(found) && *found == s,
            None => stored == Err::<&StoredBlobRef, BlobCacheError>(
                BlobCacheError::LocalityUnresolved { id: row.blob.id },
            ),
        },
{
    match &row.stored {
        Some(stored) => Ok(stored),
        None => Err(BlobCacheError::LocalityUnresolved { id: row.blob.id.clone() }),
    }
}

/// The two places where the cached copy that a locator hash names can be: kept, and
/// evictable. They are removed in this order when the copy is dropped.
pub fn cached_locator_paths(store_dir: &StoreDir, namespace: &str, hash: ObjectHash) -> (paths: Result<
    (String, String),
    BlobCacheError,
>)
    ensures
        match token_fault(namespace@) {
            Some(fault) => paths == Err::<(String, String), BlobCacheError>(
                BlobCacheError::Path(fault),
            ),
            None => paths matches Ok((pinned, cache)) && pinned@ == pinned_path_text(
                store_dir@,
                namespace@,
                hash@,
            ) && cache@ == cache_path_text(store_dir@, namespace@, hash@),
        },
{
    let pinned: String = match store_dir.pinned_blob_path(namespace, hash) {
        Ok(path) => path,
        Err(fault) => return Err(BlobCacheError::Path(fault)),
    };
    match store_dir.cache_blob_path(namespace, hash) {
        Ok(cache) => Ok((pinned, cache)),
        Err(fault) => Err(BlobCacheError::Path(fault)),
    }
}

/// The two places where a stored blob's cached copy can be: kept, and evictable.
pub fn cached_paths(store_dir: &StoreDir, stored: &StoredBlobRef) -> (paths: Result<
    (String, String),
    BlobCacheError,
>)
    ensures
        match token_fault(stored@.locator.namespace()) {
            Some(fault) => paths == Err::<(String, String), BlobCacheError>(
                BlobCacheError::Path(fault),
            ),
            None => paths matches Ok((pinned, cache)) && pinned@ == pinned_path_text(
                store_dir@,
                stored@.locator.namespace(),
                sha256(stored@.locator.canonical()),
            ) && cache@ == cache_path_text(
                store_dir@,
                stored@.locator.namespace(),
                sha256(stored@.locator.canonical()),
            ),
        },
{
    cached_locator_paths(store_dir, stored.locator.namespace(), stored.locator.locator_hash())
}

/// What the cached paths of a row come to.
pub open spec fn row_paths(
    store_dir: Seq<char>,
    row: RowBlobRef,
    paths: Result<(String, String), BlobCacheError>,
) -> bool {
    match row.stored {
        None => paths == Err::<(String, String), BlobCacheError>(
            BlobCacheError::LocalityUnresolved { id: row.blob.id },
        ),
        Some(stored) => match token_fault(stored@.locator.namespace()) {
            Some(fault) => paths == Err::<(String, String), BlobCacheError>(
                BlobCacheError::Path(fault),
            ),
            None => paths matches Ok((pinned, cache)) && pinned@ == pinned_path_text(
                store_dir,
                stored@.locator.namespace(),
                sha256(stored@.locator.canonical()),
            ) && cache@ == cache_path_text(
                store_dir,
                stored@.locator.namespace(),
                sha256(stored@.locator.canonical()),
            ),
        },
    }
}

/// The two places where a remote row's cached copy can be: kept, and evictable.
pub fn remote_cache_paths(store_dir: &StoreDir, row: &RowBlobRef) -> (paths: Result<
    (String, String),
    BlobCacheError,
>)
    ensures
        row_paths(store_dir@, *row, paths),
{
    match remote_stored_ref(row) {
        Err(error) => Err(error),
        Ok(stored) => cached_paths(store_dir, stored),
    }
}

/// What keeps a file from being the one that is expected.
pub open spec fn identity_fault(
    path: String,
    expected_size: u64,
    expected_hash: ObjectHash,
    actual_size: u64,
    actual_hash: ObjectHash,
) -> Option<BlobCacheError> {
    if actual_size != expected_size || actual_hash != expected_hash {
        Some(
            BlobCacheError::LocalIntegrity {
                path,
                expected_size,
                actual_size,
                expected_hash,
                actual_hash,
            },
        )
    } else {
        None
    }
}

/// Checks a file's measured length and hash against the expected ones.
pub fn verify_local_file_identity_values(
    path: &String,
    expected_size: u64,
    expected_hash: ObjectHash,
    actual_size: u64,
    actual_hash: ObjectHash,
) -> (checked: Result<(), BlobCacheError>)
    ensures
        match identity_fault(*path, expected_size, expected_hash, actual_size, actual_hash) {
            Some(fault) => checked == Err::<(), BlobCacheError>(fault),
            None => checked is Ok,
        },
{
    if actual_size != expected_size || !actual_hash.same(&expected_hash) {
        return Err(
            BlobCacheError::LocalIntegrity {
                path: path.clone(),
                expected_size,
                actual_size,
                expected_hash,
                actual_hash,
            },
        );
    }
    Ok(())
}

/// Checks a file's measured length and hash against its row.
pub fn verify_local_file_identity(
    path: &String,
    row: &RowBlobRef,
    actual_size: u64,
    actual_hash: ObjectHash,
) -> (checked: Result<(), BlobCacheError>)
    ensures
        match identity_fault(
            *path,
            row.plaintext_size,
            row.plaintext_hash,
            actual_size,
            actual_hash,
        ) {
            Some(fault) => checked == Err::<(), BlobCacheError>(fault),
            None => checked is Ok,
        },
{
    verify_local_file_identity_values(
        path,
        row.plaintext_size,
        row.plaintext_hash,
        actual_size,
        actual_hash,
    )
}

/// What keeps a user's file from being the one that was registered for a row.
pub open spec fn external_fault(
    row: RowBlobRef,
    file: ExternalBlob,
    actual_size: u64,
    actual_hash: ObjectHash,
) -> Option<BlobCacheError> {
    if actual_size != file.size || actual_size != row.plaintext_size {
        Some(BlobCacheError::ExternalSizeMismatch { id: row.blob.id, path: file.path })
    } else {
        identity_fault(
            file.path,
            row.plaintext_size,
            row.plaintext_hash,
            actual_size,
            actual_hash,
        )
    }
}

/// Checks a user's file: its length against both the registered one and the row's, and its
/// hash against the row's.
pub fn verify_external_facts(
    row: &RowBlobRef,
    file: &ExternalBlob,
    actual_size: u64,
    actual_hash: ObjectHash,
) -> (checked: Result<(), BlobCacheError>)
    ensures
        match external_fault(*row, *file, actual_size, actual_hash) {
            Some(fault) => checked == Err::<(), BlobCacheError>(fault),
            None => checked is Ok,
        },
{
    if actual_size != file.size || actual_size != row.plaintext_size {
        return Err(
            BlobCacheError::ExternalSizeMismatch {
                id: row.blob.id.clone(),
                path: file.path.clone(),
            },
        );
    }
    verify_local_file_identity(&file.path, row, actual_size, actual_hash)
}

/// Where an open stream's ranges come from.
#[derive(Debug, Clone, Copy, PartialEq, Eq, Structural)]
pub enum BlobStreamSource {
    /// A file on this device.
    Local,
    /// The cloud object, a chunk at a time.
    Remote,
}

/// One opened blob, ready to serve ranges.
#[derive(Debug)]
pub struct BlobStream {
    /// The blob.
    pub blob: BlobRef,
    /// Where its ranges come from.
    pub source: BlobStreamSource,
    /// The length of the opened source.
    pub size: u64,
}

/// What a ranged read does.
#[derive(Debug, Clone, Copy, PartialEq, Eq, Structural)]
pub enum RangeRead {
    /// It is empty and reads nothing.
    Empty,
    /// It reads exactly these bytes.
    Read { offset: u64, len: u64 },
}

/// Why a range is refused, or `None` where it lies within the blob.
pub open spec fn range_fault(id: Seq<char>, size: u64, offset: u64, len: u64) -> Option<Seq<char>> {
    if len == 0 {
        None
    } else if offset + len > u64::MAX {
        Some(
            "blob range overflow for "@ + id + ": offset="@ + decimal(offset as nat) + ", len="@
                + decimal(len as nat),
        )
    } else if offset + len > size {
        Some(
            "blob range "@ + decimal(offset as nat) + ".."@ + decimal((offset + len) as nat)
                + " for "@ + id + " exceeds blob size "@ + decimal(size as nat),
        )
    } else {
        None
    }
}

impl BlobStream {
    /// The blob's whole plaintext length.
    pub fn plaintext_size(&self) -> (size: u64)
        ensures
            size == self.size,
    {
        self.size
    }

    /// Decides a read of `len` bytes at `offset`: an empty one reads nothing, and one that
    /// leaves the blob is an error, never a short read.
    pub fn read_at(&self, offset: u64, len: u64) -> (decided: Result<RangeRead, BlobCacheError>)
        ensures
            match range_fault(self.blob.id@, self.size, offset, len) {
                Some(message) => decided matches Err(BlobCacheError::Io(detail)) && detail@
                    == message,
                None => decided == Ok::<RangeRead, BlobCacheError>(
                    if len == 0 {
                        RangeRead::Empty
                    } else {
                        RangeRead::Read { offset, len }
                    },
                ),
            },
    {
        if len == 0 {
            return Ok(RangeRead::Empty);
        }
        let end: u64 = match offset.checked_add(len) {
            Some(end) => end,
            None => return Err(
                BlobCacheError::Io(
                    "blob range overflow for ".to_owned().concat(self.blob.id.as_str()).concat(
                        ": offset=",
                    ).concat(decimal_text(offset).as_str()).concat(", len=").concat(
                        decimal_text(len).as_str(),
                    ),
                ),
            ),
        };
        let size: u64 = self.plaintext_size();
        if end > size {
            return Err(
                BlobCacheError::Io(
                    "blob range ".to_owned().concat(decimal_text(offset).as_str()).concat(
                        "..",
                    ).concat(decimal_text(end).as_str()).concat(" for ").concat(
                        self.blob.id.as_str(),
                    ).concat(" exceeds blob size ").concat(decimal_text(size).as_str()),
                ),
            );
        }
        Ok(RangeRead::Read { offset, len })
    }
}

/// A range that is read lies within the blob, whichever source serves it.
pub proof fn law_ranges_stay_within_the_blob(id: Seq<char>, size: u64, offset: u64, len: u64)
    ensures
        range_fault(id, size, offset, len) is None <==> len == 0 || offset + len <= size,
{
}

} // verus!
