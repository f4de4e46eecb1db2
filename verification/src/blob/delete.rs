//! The delete half of the blob engine.
//!
//! A queued deletion becomes a signed tombstone in the cloud, and the blob is kept for a
//! convergence grace: a device that was offline for less than the grace still finds the
//! blob while it learns that the row is gone. Once the grace has passed, a collection
//! pass on any device deletes the object and the tombstone.
//!
//! The bucket is untrusted, so a tombstone is signed, and it is acted on only where the
//! signature holds for this store and its author is a current member who may write. It
//! names the exact immutable object, so a later upload under the same logical key can
//! never be erased by it.

use std::collections::VecDeque;
use vstd::prelude::*;
use vstd::string::*;

use crate::blob::drain_laws::{
    deletes_left, due_deletes, holds_only_deletes, lemma_next_delete_skips_none, meets_an_upload,
};
use crate::blob::gc_laws::{fitting_keys, keys_to_read, lemma_advanced_skips_no_key};
use crate::blob::locator::{StoredBlobRef, StoredView};
use crate::blob::retry::{entry_in_backoff, in_backoff};
use crate::clock::{
    format_rfc3339, has_plain_year, is_moment, nanos_between, parse_rfc3339, rfc3339, rfc3339_text, Instant,
};
use crate::digest::{hex_encode, hex_text, is_object_hash_text, law_object_hash_text_round_trip, ObjectHash};
use crate::json::{alike, json_quoted, lemma_objects_apart, member_views, object_text, quote, write_object};
use crate::outbox::{OutboxEntry, OutboxOperation, StoredBlobReferenceState};
use crate::storage::StorageError;
use crate::text::{chars_of, same_bytes, same_text, signed_decimal, signed_decimal_text, text_of};

verus! {

/// How long a deleted blob is kept by default, in nanoseconds: seven days.
pub const BLOB_TOMBSTONE_GRACE: i128 = 604_800_000_000_000;

/// The identity of the object that a tombstone condemns.
pub fn tombstone_object_id(stored: &StoredBlobRef) -> (id: ObjectHash)
    ensures
        id == stored@.object.object_id,
{
    stored.object.object_id
}

/// The key of the tombstone for an object.
pub open spec fn tombstone_key_text(object_id: Seq<u8>, suffix: Seq<char>) -> Seq<char> {
    "blob_tombstones/"@ + hex_text(object_id) + suffix
}

/// The key of the tombstone that condemns `stored`.
pub fn tombstone_key(stored: &StoredBlobRef, suffix: &str) -> (key: String)
    ensures
        key@ == tombstone_key_text(stored@.object.object_id@, suffix@),
{
    "blob_tombstones/".to_owned().concat(tombstone_object_id(stored).to_text().as_str()).concat(
        suffix,
    )
}

/// The reusable key that a stored blob was written under.
pub fn stored_cloud_key(stored: &StoredBlobRef) -> (key: &str)
    ensures
        key@ == stored@.object.logical_key,
{
    stored.object.logical_key.as_str()
}

/// The object identity that a tombstone key encodes, or `None` where the key does not fit
/// the layout.
pub open spec fn key_object_id(key: Seq<char>, suffix: Seq<char>) -> Option<Seq<char>> {
    let prefix = "blob_tombstones/"@;
    if key.len() >= prefix.len() + suffix.len() && prefix.is_prefix_of(key) && suffix.is_suffix_of(
        key,
    ) && is_object_hash_text(
        key.subrange(prefix.len() as int, key.len() - suffix.len()),
    ) {
        Some(key.subrange(prefix.len() as int, key.len() - suffix.len()))
    } else {
        None
    }
}

/// Reads the object identity out of a tombstone key.
pub fn parse_tombstone_key(key: &str, suffix: &str) -> (id: Option<ObjectHash>)
    ensures
        match id {
            Some(hash) => key_object_id(key@, suffix@) == Some(hex_text(hash@)),
            None => key_object_id(key@, suffix@) is None,
        },
{
    proof {
        reveal_strlit("blob_tombstones/");
    }
    let chars: Vec<char> = chars_of(key);
    let tail: Vec<char> = chars_of(suffix);
    let total: usize = chars.len();
    if total < 16 || total - 16 < tail.len() {
        return None;
    }
    let end: usize = total - tail.len();
    let head: String = text_of(vstd::slice::slice_subrange(chars.as_slice(), 0, 16));
    assert(head@ =~= key@.subrange(0, 16));
    if !same_text(head.as_str(), "blob_tombstones/") {
        return None;
    }
    let last: String = text_of(vstd::slice::slice_subrange(chars.as_slice(), end, total));
    assert(last@ =~= key@.subrange(end as int, total as int));
    if !same_text(last.as_str(), suffix) {
        return None;
    }
    let name: String = text_of(vstd::slice::slice_subrange(chars.as_slice(), 16, end));
    assert(name@ =~= key@.subrange(16, end as int));
    match ObjectHash::parse(name.as_str()) {
        Ok(hash) => Some(hash),
        Err(_) => None,
    }
}

/// The key that is written for an object is read back as that object's identity, with any
/// suffix.
pub proof fn law_tombstone_key_round_trip(object_id: ObjectHash, suffix: Seq<char>)
    ensures
        key_object_id(tombstone_key_text(object_id@, suffix), suffix) == Some(
            hex_text(object_id@),
        ),
{
    reveal_strlit("blob_tombstones/");
    law_object_hash_text_round_trip(object_id);
    let prefix = "blob_tombstones/"@;
    let id = hex_text(object_id@);
    let key = prefix + id + suffix;
    assert(prefix =~= key.subrange(0, prefix.len() as int));
    assert(suffix =~= key.subrange(key.len() - suffix.len(), key.len() as int));
    assert(key.subrange(prefix.len() as int, key.len() - suffix.len()) =~= id);
}

/// The signed record that a blob was deleted.
#[derive(Debug)]
pub struct BlobTombstoneJson {
    /// The exact stored blob that may be deleted.
    pub stored: StoredBlobRef,
    /// When the deletion was recorded, as RFC 3339 text. The grace is counted from here.
    pub deleted_at: String,
    /// The hexadecimal public key of the device that wrote the tombstone.
    pub author_pubkey: String,
    /// The hexadecimal signature over [`tombstone_signing_payload`].
    pub signature: String,
}

/// What a tombstone's signature covers: the store, the exact stored blob and the time of
/// the deletion.
pub open spec fn signing_payload(
    store_id: Seq<char>,
    stored: StoredView,
    deleted_at: Seq<char>,
) -> Seq<u8> {
    object_text(payload_members(store_id, stored, deleted_at))
}

/// The members of a signed payload, in their order.
pub open spec fn payload_members(
    store_id: Seq<char>,
    stored: StoredView,
    deleted_at: Seq<char>,
) -> Seq<(Seq<char>, Seq<u8>)> {
    seq![
        ("store_id"@, json_quoted(store_id)),
        ("stored"@, stored.json()),
        ("deleted_at"@, json_quoted(deleted_at)),
    ]
}

/// The bytes that a tombstone's signature covers. They determine the store, the stored
/// blob and the time. The store is part of them though the tombstone does not carry it,
/// so no tombstone counts in another store.
pub fn tombstone_signing_payload(store_id: &str, stored: &StoredBlobRef, deleted_at: &str) -> (payload:
    Vec<u8>)
    ensures
        payload@ == signing_payload(store_id@, stored@, deleted_at@),
        forall|other_store: Seq<char>, other: StoredView, other_time: Seq<char>|
            payload@ == #[trigger] signing_payload(other_store, other, other_time) ==> {
                &&& other_store == store_id@
                &&& other == stored@
                &&& other_time == deleted_at@
            },
{
    let mut members: Vec<(String, Vec<u8>)> = Vec::new();
    members.push(("store_id".to_owned(), quote(store_id)));
    members.push(("stored".to_owned(), stored.to_json()));
    members.push(("deleted_at".to_owned(), quote(deleted_at)));
    let ghost parts = payload_members(store_id@, stored@, deleted_at@);
    assert(member_views(members@) =~= parts);
    assert forall|other_store: Seq<char>, other: StoredView, other_time: Seq<char>|
        signing_payload(store_id@, stored@, deleted_at@) == #[trigger] signing_payload(
            other_store,
            other,
            other_time,
        ) implies {
        &&& other_store == store_id@
        &&& other == stored@
        &&& other_time == deleted_at@
    } by {
        let others = payload_members(other_store, other, other_time);
        assert(parts[1].1 == stored@.json() && others[1].1 == other.json());
        assert(alike(parts, others));
        lemma_objects_apart(parts, others);
        assert(parts == others);
        assert(parts[0].1 == others[0].1 && parts[1].1 == others[1].1 && parts[2].1
            == others[2].1);
    }
    write_object(&members)
}

/// What a signature check was asked, and whether the signature held.
#[derive(Debug)]
pub struct SignatureCheck {
    /// The hexadecimal public key.
    pub pubkey: String,
    /// The hexadecimal signature.
    pub signature: String,
    /// The signed bytes.
    pub payload: Vec<u8>,
    /// Whether the signature is one over the bytes by the key.
    pub valid: bool,
}

/// Whether a tombstone is authentic in a store, by a check of its signature: the check
/// must have been about this key, this signature and exactly these bytes.
pub open spec fn is_authentic(
    tombstone: BlobTombstoneJson,
    store_id: Seq<char>,
    check: SignatureCheck,
) -> bool {
    &&& check.valid
    &&& check.pubkey@ == tombstone.author_pubkey@
    &&& check.signature@ == tombstone.signature@
    &&& check.payload@ == signing_payload(store_id, tombstone.stored@, tombstone.deleted_at@)
}

impl BlobTombstoneJson {
    /// Assembles a tombstone from the author's public key and their signature over
    /// [`tombstone_signing_payload`].
    pub fn signed(stored: StoredBlobRef, deleted_at: String, public_key: &[u8], signature: &[u8]) -> (tombstone:
        BlobTombstoneJson)
        ensures
            tombstone.stored == stored,
            tombstone.deleted_at == deleted_at,
            tombstone.author_pubkey@ == hex_text(public_key@),
            tombstone.signature@ == hex_text(signature@),
    {
        BlobTombstoneJson {
            stored,
            deleted_at,
            author_pubkey: hex_encode(public_key),
            signature: hex_encode(signature),
        }
    }

    /// Whether the tombstone is authentic in the store `store_id`, given the check of its
    /// signature. One that is not is forged, corrupt, changed after signing, or another
    /// store's. Whether its author may delete is a separate question. Under one check no
    /// tombstone of another stored blob, time, author or signature is authentic, and none
    /// is in another store.
    pub fn verify(&self, store_id: &str, check: &SignatureCheck) -> (authentic: bool)
        ensures
            authentic == is_authentic(*self, store_id@, *check),
            authentic ==> forall|other: BlobTombstoneJson, other_store: Seq<char>|
                #[trigger] is_authentic(other, other_store, *check) ==> {
                    &&& other_store == store_id@
                    &&& other.stored@ == self.stored@
                    &&& other.deleted_at@ == self.deleted_at@
                    &&& other.author_pubkey@ == self.author_pubkey@
                    &&& other.signature@ == self.signature@
                },
    {
        let payload: Vec<u8> = tombstone_signing_payload(
            store_id,
            &self.stored,
            self.deleted_at.as_str(),
        );
        check.valid && check.pubkey == self.author_pubkey && check.signature == self.signature
            && same_bytes(
            check.payload.as_slice(),
            payload.as_slice(),
        )
    }
}

/// What reading a tombstone came to.
#[derive(Debug)]
pub enum TombstoneRead {
    /// There is none.
    NotFound(String),
    /// It could not be read.
    Failed(String),
    /// Its bytes could not be opened with this store's key.
    Unopened(String),
    /// Its bytes are no tombstone.
    Unparsed(String),
    /// It was read, and its signature checked.
    Read { tombstone: BlobTombstoneJson, check: SignatureCheck },
}

/// Why a tombstone that is there does not count.
#[derive(Debug)]
pub enum InvalidTombstone {
    /// Its bytes could not be opened with this store's key.
    Unopened(String),
    /// Its bytes are no tombstone.
    Unparsed(String),
    /// It condemns another object.
    OtherBlob,
    /// Its signature does not hold.
    BadSignature,
}

/// What stands at the key of a tombstone that is to be written.
#[derive(Debug)]
pub enum ExistingTombstone {
    /// An authentic tombstone for the same object.
    Valid,
    /// Nothing.
    Absent,
    /// Something that does not count.
    Invalid(InvalidTombstone),
}

/// What stands at a tombstone's key, by what reading it came to.
pub open spec fn existing_tombstone(
    read: TombstoneRead,
    store_id: Seq<char>,
    expected: StoredView,
) -> Result<ExistingTombstone, String> {
    match read {
        TombstoneRead::NotFound(_) => Ok(ExistingTombstone::Absent),
        TombstoneRead::Failed(detail) => Err(detail),
        TombstoneRead::Unopened(detail) => Ok(
            ExistingTombstone::Invalid(InvalidTombstone::Unopened(detail)),
        ),
        TombstoneRead::Unparsed(detail) => Ok(
            ExistingTombstone::Invalid(InvalidTombstone::Unparsed(detail)),
        ),
        TombstoneRead::Read { tombstone, check } => if tombstone.stored@ != expected {
            Ok(ExistingTombstone::Invalid(InvalidTombstone::OtherBlob))
        } else if !is_authentic(tombstone, store_id, check) {
            Ok(ExistingTombstone::Invalid(InvalidTombstone::BadSignature))
        } else {
            Ok(ExistingTombstone::Valid)
        },
    }
}

/// Decides what stands at a tombstone's key. The error is the detail of a failed read.
pub fn existing_tombstone_state(
    read: TombstoneRead,
    store_id: &str,
    expected: &StoredBlobRef,
) -> (state: Result<ExistingTombstone, String>)
    ensures
        state == existing_tombstone(read, store_id@, expected@),
{
    match read {
        TombstoneRead::NotFound(_) => Ok(ExistingTombstone::Absent),
        TombstoneRead::Failed(detail) => Err(detail),
        TombstoneRead::Unopened(detail) => Ok(
            ExistingTombstone::Invalid(InvalidTombstone::Unopened(detail)),
        ),
        TombstoneRead::Unparsed(detail) => Ok(
            ExistingTombstone::Invalid(InvalidTombstone::Unparsed(detail)),
        ),
        TombstoneRead::Read { tombstone, check } => {
            if !tombstone.stored.same(expected) {
                Ok(ExistingTombstone::Invalid(InvalidTombstone::OtherBlob))
            } else if !tombstone.verify(store_id, &check) {
                Ok(ExistingTombstone::Invalid(InvalidTombstone::BadSignature))
            } else {
                Ok(ExistingTombstone::Valid)
            }
        },
    }
}

/// One queued deletion, unpacked from its queue entry.
#[derive(Debug)]
pub struct DeleteJob {
    pub id: i64,
    pub attempt_count: i64,
    pub last_attempt_at: Option<String>,
    pub stored: StoredBlobRef,
}

impl DeleteJob {
    /// The queue entry.
    pub open spec fn entry_spec(self) -> OutboxEntry {
        OutboxEntry {
            id: self.id,
            operation: OutboxOperation::Delete { stored: self.stored },
            attempt_count: self.attempt_count,
            last_attempt_at: self.last_attempt_at,
        }
    }

    /// The queue entry.
    pub fn entry(&self) -> (entry: OutboxEntry)
        ensures
            entry == self.entry_spec(),
    {
        OutboxEntry {
            id: self.id,
            operation: OutboxOperation::Delete { stored: self.stored.clone() },
            attempt_count: self.attempt_count,
            last_attempt_at: crate::blob::duplicate_text(&self.last_attempt_at),
        }
    }
}

/// Why a pass over the queued deletions failed. The entry it failed at stays queued.
#[derive(Debug)]
pub enum TombstoneDrainError {
    /// The queue could not be read.
    List(String),
    /// The queue of deletions held another entry.
    NotADelete(i64),
    /// What stands at the tombstone's key could not be told.
    Validation { cloud_key: String, detail: String },
    /// The tombstone could not be written.
    Write { cloud_key: String, detail: String },
    /// The failed attempt could not be recorded.
    Record { cloud_key: String, id: i64, detail: String },
    /// The entry could not be removed; its tombstone is there.
    Remove { id: i64, detail: String },
}

impl TombstoneDrainError {
    /// The error in words.
    pub open spec fn message_text(self) -> Seq<char> {
        match self {
            TombstoneDrainError::List(detail) => "Failed to get pending deletes: "@ + detail@,
            TombstoneDrainError::NotADelete(id) => {
                "pending delete query returned non-delete outbox entry "@ + signed_decimal(
                    id as int,
                )
            },
            TombstoneDrainError::Validation { cloud_key, detail } => {
                "Failed to validate an existing tombstone for "@ + cloud_key@
                    + ": tombstone read failed: "@ + detail@
            },
            TombstoneDrainError::Write { cloud_key, detail } => "Tombstone write failed for "@
                + cloud_key@ + ": "@ + detail@,
            TombstoneDrainError::Record { cloud_key, id, detail } => {
                "Failed to record delete failure for "@ + cloud_key@ + " (entry "@ + signed_decimal(
                    id as int,
                ) + "): "@ + detail@
            },
            TombstoneDrainError::Remove { id, detail } => "Failed to remove delete outbox entry "@
                + signed_decimal(id as int) + ": "@ + detail@,
        }
    }

    /// The error in words.
    pub fn message(&self) -> (text: String)
        ensures
            text@ == self.message_text(),
    {
        match self {
            TombstoneDrainError::List(detail) => "Failed to get pending deletes: ".to_owned().concat(
                detail.as_str(),
            ),
            TombstoneDrainError::NotADelete(id) => "pending delete query returned non-delete outbox entry ".to_owned().concat(
                signed_decimal_text(*id).as_str(),
            ),
            TombstoneDrainError::Validation { cloud_key, detail } => "Failed to validate an existing tombstone for ".to_owned().concat(
                cloud_key.as_str(),
            ).concat(": tombstone read failed: ").concat(detail.as_str()),
            TombstoneDrainError::Write { cloud_key, detail } => "Tombstone write failed for ".to_owned().concat(
                cloud_key.as_str(),
            ).concat(": ").concat(detail.as_str()),
            TombstoneDrainError::Record { cloud_key, id, detail } => "Failed to record delete failure for ".to_owned().concat(
                cloud_key.as_str(),
            ).concat(" (entry ").concat(signed_decimal_text(*id).as_str()).concat("): ").concat(
                detail.as_str(),
            ),
            TombstoneDrainError::Remove { id, detail } => "Failed to remove delete outbox entry ".to_owned().concat(
                signed_decimal_text(*id).as_str(),
            ).concat(": ").concat(detail.as_str()),
        }
    }

    /// The message that is recorded with the entry of a failed attempt.
    pub open spec fn record_text(self) -> Seq<char> {
        match self {
            TombstoneDrainError::Validation { detail, .. } => {
                "tombstone validation failed: tombstone read failed: "@ + detail@
            },
            TombstoneDrainError::Write { detail, .. } => detail@,
            _ => self.message_text(),
        }
    }

    /// The message that is recorded with the entry of a failed attempt.
    pub fn record_message(&self) -> (text: String)
        ensures
            text@ == self.record_text(),
    {
        match self {
            TombstoneDrainError::Validation { detail, .. } => "tombstone validation failed: tombstone read failed: ".to_owned().concat(
                detail.as_str(),
            ),
            TombstoneDrainError::Write { detail, .. } => detail.clone(),
            _ => self.message(),
        }
    }
}

/// Why a tombstone could not be written.
#[derive(Debug)]
pub enum TombstoneWriteError {
    /// It could not be encoded.
    Serialize(String),
    /// This device has not adopted the store's present key.
    Rotation(String),
    /// The home did not take it.
    Write(String),
}

impl TombstoneWriteError {
    /// The error in words.
    pub open spec fn message_text(self) -> Seq<char> {
        match self {
            TombstoneWriteError::Serialize(detail) => "tombstone serialization failed: "@ + detail@,
            TombstoneWriteError::Rotation(detail) => detail@,
            TombstoneWriteError::Write(detail) => "tombstone write failed: "@ + detail@,
        }
    }

    /// The error in words.
    pub fn message(&self) -> (text: String)
        ensures
            text@ == self.message_text(),
    {
        match self {
            TombstoneWriteError::Serialize(detail) => "tombstone serialization failed: ".to_owned().concat(
                detail.as_str(),
            ),
            TombstoneWriteError::Rotation(detail) => detail.clone(),
            TombstoneWriteError::Write(detail) => "tombstone write failed: ".to_owned().concat(
                detail.as_str(),
            ),
        }
    }
}

/// The operation that a pass over the queued deletions performs next.
#[derive(Debug)]
pub enum TombstoneStep {
    /// Read what stands at the deletion's tombstone key.
    ReadTombstone { job: DeleteJob },
    /// Write a signed tombstone with this time of deletion.
    WriteTombstone { job: DeleteJob, deleted_at: String },
    /// Remove the entry from the queue.
    RemoveEntry { job: DeleteJob },
    /// Record the failed attempt with the entry, as of this time.
    RecordFailure { job: DeleteJob, error: TombstoneDrainError, attempted_at: String },
    /// The queue is through.
    Done,
    /// The pass failed.
    Failed { error: TombstoneDrainError },
}

/// What the operation answered.
#[derive(Debug)]
pub enum TombstoneReply {
    Read(TombstoneRead),
    Written(Result<(), TombstoneWriteError>),
    Local(Result<(), String>),
}

/// A pass over the queued deletions.
pub struct TombstoneDrain {
    /// The store the tombstones are written for.
    pub store_id: String,
    /// The time of the pass.
    pub now: Instant,
    /// The time of the pass as it is written down.
    pub now_text: String,
    /// The deletions that were not looked at yet, in queue order.
    pub pending: VecDeque<OutboxEntry>,
    /// How many tombstones this pass wrote.
    pub written: u64,
    /// What to perform next.
    pub step: TombstoneStep,
}

/// What the next entry of the queue asks for: entries that wait for their retry window are
/// passed over.
pub open spec fn next_delete(pending: Seq<OutboxEntry>, now: Instant) -> (
    Seq<OutboxEntry>,
    TombstoneStep,
)
    decreases pending.len(),
{
    if pending.len() == 0 {
        (pending, TombstoneStep::Done)
    } else {
        let entry = pending[0];
        match entry.operation {
            OutboxOperation::Upload { .. } => (
                pending.skip(1),
                TombstoneStep::Failed { error: TombstoneDrainError::NotADelete(entry.id) },
            ),
            OutboxOperation::Delete { stored } => if in_backoff(
                entry@.attempt_count as int,
                entry@.last_attempt_at,
                now,
            ) {
                next_delete(pending.skip(1), now)
            } else {
                (
                    pending.skip(1),
                    TombstoneStep::ReadTombstone {
                        job: DeleteJob {
                            id: entry.id,
                            attempt_count: entry.attempt_count,
                            last_attempt_at: entry.last_attempt_at,
                            stored,
                        },
                    },
                )
            },
        }
    }
}

impl TombstoneDrain {
    /// Whether the deletion at hand may still be counted.
    pub open spec fn uncounted(self) -> nat {
        match self.step {
            TombstoneStep::ReadTombstone { .. } => 1,
            TombstoneStep::WriteTombstone { .. } => 1,
            _ => 0,
        }
    }

    /// The count fits: every deletion is counted at most once.
    pub open spec fn wf(self) -> bool {
        self.written + self.pending@.len() + self.uncounted() <= u64::MAX
    }

    /// The pass goes on to the next entry.
    pub open spec fn advanced(self, next: TombstoneDrain) -> bool {
        &&& next.store_id == self.store_id
        &&& next.now == self.now
        &&& next.now_text == self.now_text
        &&& next.written == self.written
        &&& (next.pending@, next.step) == next_delete(self.pending@, self.now)
    }

    /// The same pass at another step.
    pub open spec fn at(self, step: TombstoneStep) -> TombstoneDrain {
        TombstoneDrain { step, ..self }
    }

    /// What follows on each reply. A reply that does not answer the step changes nothing.
    pub open spec fn follows(self, reply: TombstoneReply, next: TombstoneDrain) -> bool {
        match (self.step, reply) {
            (TombstoneStep::ReadTombstone { job }, TombstoneReply::Read(read)) => {
                match existing_tombstone(read, self.store_id@, job.stored@) {
                    Ok(ExistingTombstone::Valid) => next == self.at(
                        TombstoneStep::RemoveEntry { job },
                    ),
                    Ok(_) => next == self.at(
                        TombstoneStep::WriteTombstone { job, deleted_at: self.now_text },
                    ),
                    Err(detail) => next == self.at(
                        TombstoneStep::RecordFailure {
                            job,
                            error: TombstoneDrainError::Validation {
                                cloud_key: job.stored.object.logical_key,
                                detail,
                            },
                            attempted_at: self.now_text,
                        },
                    ),
                }
            },
            (TombstoneStep::WriteTombstone { job, .. }, TombstoneReply::Written(written)) => match written {
                Ok(_) => next == (TombstoneDrain {
                    written: (self.written + 1) as u64,
                    ..self
                }).at(TombstoneStep::RemoveEntry { job }),
                Err(fault) => {
                    &&& next == self.at(next.step)
                    &&& next.step matches TombstoneStep::RecordFailure {
                        job: failed,
                        error: TombstoneDrainError::Write { cloud_key, detail },
                        attempted_at,
                    } && failed == job && cloud_key == job.stored.object.logical_key && detail@
                        == fault.message_text() && attempted_at == self.now_text
                },
            },
            (TombstoneStep::RemoveEntry { job }, TombstoneReply::Local(removed)) => match removed {
                Ok(_) => self.advanced(next),
                Err(detail) => next == self.at(
                    TombstoneStep::Failed {
                        error: TombstoneDrainError::Remove { id: job.id, detail },
                    },
                ),
            },
            (TombstoneStep::RecordFailure { job, error, .. }, TombstoneReply::Local(recorded)) => next
                == self.at(
                match recorded {
                    Ok(_) => TombstoneStep::Failed { error },
                    Err(detail) => TombstoneStep::Failed {
                        error: TombstoneDrainError::Record {
                            cloud_key: job.stored.object.logical_key,
                            id: job.id,
                            detail,
                        },
                    },
                },
            ),
            _ => next == self,
        }
    }

    fn advance(self) -> (next: TombstoneDrain)
        requires
            self.written + self.pending@.len() <= u64::MAX,
        ensures
            self.advanced(next),
            next.wf(),
    {
        let TombstoneDrain { store_id, now, now_text, pending, written, step: _ } = self;
        let mut pending: VecDeque<OutboxEntry> = pending;
        let ghost all = pending@;
        let ghost mut taken: int = 0;
        assert(all.skip(0) =~= all);
        loop
            invariant
                0 <= taken <= all.len(),
                all == self.pending@,
                pending@ == all.skip(taken),
                next_delete(all, now) == next_delete(all.skip(taken), now),
                written + all.len() <= u64::MAX,
                store_id == self.store_id,
                now == self.now,
                now_text == self.now_text,
                written == self.written,
            decreases all.len() - taken,
        {
            match pending.pop_front() {
                None => {
                    assert(pending@ =~= all.skip(taken));
                    return TombstoneDrain {
                        store_id,
                        now,
                        now_text,
                        pending,
                        written,
                        step: TombstoneStep::Done,
                    };
                },
                Some(entry) => {
                    assert(entry == all.skip(taken)[0]);
                    assert(pending@ =~= all.skip(taken).skip(1));
                    assert(all.skip(taken).skip(1) =~= all.skip(taken + 1));
                    let waits: bool = entry_in_backoff(&entry, &now);
                    match entry.operation {
                        OutboxOperation::Upload { .. } => {
                            return TombstoneDrain {
                                store_id,
                                now,
                                now_text,
                                pending,
                                written,
                                step: TombstoneStep::Failed {
                                    error: TombstoneDrainError::NotADelete(entry.id),
                                },
                            };
                        },
                        OutboxOperation::Delete { stored } => {
                            if !waits {
                                return TombstoneDrain {
                                    store_id,
                                    now,
                                    now_text,
                                    pending,
                                    written,
                                    step: TombstoneStep::ReadTombstone {
                                        job: DeleteJob {
                                            id: entry.id,
                                            attempt_count: entry.attempt_count,
                                            last_attempt_at: entry.last_attempt_at,
                                            stored,
                                        },
                                    },
                                };
                            }
                        },
                    }
                    proof {
                        taken = taken + 1;
                    }
                },
            }
        }
    }

    /// Starts a pass over the queued deletions at `now`.
    pub fn start(
        store_id: String,
        now: Instant,
        deletes: Result<VecDeque<OutboxEntry>, String>,
    ) -> (drain: TombstoneDrain)
        requires
            is_moment(now),
        ensures
            drain.wf(),
            drain.store_id == store_id,
            drain.now == now,
            drain.now_text@ == rfc3339_text(now.seconds, now.nanos),
            has_plain_year(now) ==> rfc3339(drain.now_text@) == Ok::<(i64, u32), Seq<char>>(
                (now.seconds, now.nanos),
            ),
            drain.written == 0,
            match deletes {
                Ok(pending) => {
                    &&& (drain.pending@, drain.step) == next_delete(pending@, now)
                    &&& drain.step is ReadTombstone || drain.step is Done || drain.step is Failed
                    &&& !(drain.step is Failed) ==> deletes_left(drain) == due_deletes(pending@, now)
                        && holds_only_deletes(drain.pending@) == holds_only_deletes(pending@)
                    &&& drain.step matches TombstoneStep::Failed { error } ==> meets_an_upload(
                        pending@,
                        now,
                        error,
                    )
                    &&& drain.step is Done ==> drain.pending@.len() == 0
                },
                Err(detail) => drain.step == (TombstoneStep::Failed {
                    error: TombstoneDrainError::List(detail),
                }) && drain.pending@.len() == 0,
            },
    {
        let now_text: String = format_rfc3339(&now);
        match deletes {
            Ok(pending) => {
                let count: usize = pending.len();
                assert(pending@.len() == count);
                proof {
                    lemma_next_delete_skips_none(pending@, now);
                }
                TombstoneDrain {
                    store_id,
                    now,
                    now_text,
                    pending,
                    written: 0,
                    step: TombstoneStep::Done,
                }.advance()
            },
            Err(detail) => TombstoneDrain {
                store_id,
                now,
                now_text,
                pending: VecDeque::new(),
                written: 0,
                step: TombstoneStep::Failed { error: TombstoneDrainError::List(detail) },
            },
        }
    }

    fn go(self, step: TombstoneStep) -> (next: TombstoneDrain)
        ensures
            next == self.at(step),
    {
        TombstoneDrain { step, ..self }
    }

    /// Takes the reply to the present step and decides the next one.
    pub fn next(self, reply: TombstoneReply) -> (next: TombstoneDrain)
        requires
            self.wf(),
        ensures
            self.follows(reply, next),
            next.wf(),
    {
        let TombstoneDrain { store_id, now, now_text, pending, written, step } = self;
        let here = TombstoneDrain {
            store_id,
            now,
            now_text,
            pending,
            written,
            step: TombstoneStep::Done,
        };
        match (step, reply) {
            (TombstoneStep::ReadTombstone { job }, TombstoneReply::Read(read)) => {
                match existing_tombstone_state(read, here.store_id.as_str(), &job.stored) {
                    Ok(ExistingTombstone::Valid) => here.go(TombstoneStep::RemoveEntry { job }),
                    Ok(_) => {
                        let deleted_at: String = here.now_text.clone();
                        here.go(TombstoneStep::WriteTombstone { job, deleted_at })
                    },
                    Err(detail) => {
                        let cloud_key: String = job.stored.object.logical_key.clone();
                        let attempted_at: String = here.now_text.clone();
                        here.go(
                            TombstoneStep::RecordFailure {
                                job,
                                error: TombstoneDrainError::Validation { cloud_key, detail },
                                attempted_at,
                            },
                        )
                    },
                }
            },
            (TombstoneStep::WriteTombstone { job, .. }, TombstoneReply::Written(done)) => match done {
                Ok(_) => TombstoneDrain { written: written + 1, ..here }.go(
                    TombstoneStep::RemoveEntry { job },
                ),
                Err(fault) => {
                    let cloud_key: String = job.stored.object.logical_key.clone();
                    let attempted_at: String = here.now_text.clone();
                    let detail: String = fault.message();
                    here.go(
                        TombstoneStep::RecordFailure {
                            job,
                            error: TombstoneDrainError::Write { cloud_key, detail },
                            attempted_at,
                        },
                    )
                },
            },
            (TombstoneStep::RemoveEntry { job }, TombstoneReply::Local(removed)) => match removed {
                Ok(_) => here.advance(),
                Err(detail) => here.go(
                    TombstoneStep::Failed {
                        error: TombstoneDrainError::Remove { id: job.id, detail },
                    },
                ),
            },
            (TombstoneStep::RecordFailure { job, error, .. }, TombstoneReply::Local(recorded)) => {
                match recorded {
                    Ok(_) => here.go(TombstoneStep::Failed { error }),
                    Err(detail) => {
                        let cloud_key: String = job.stored.object.logical_key.clone();
                        here.go(
                            TombstoneStep::Failed {
                                error: TombstoneDrainError::Record { cloud_key, id: job.id, detail },
                            },
                        )
                    },
                }
            },
            (step, _) => here.go(step),
        }
    }
}

/// A deletion is never lost and its grace never moves: an entry leaves the queue only when
/// its tombstone was written, or an authentic one for the same object was found and left
/// as it is; and a tombstone is written only where none counts.
pub proof fn law_tombstone_before_the_entry_goes(
    before: TombstoneDrain,
    reply: TombstoneReply,
    after: TombstoneDrain,
)
    requires
        before.follows(reply, after),
        before.step != after.step,
    ensures
        after.step is RemoveEntry ==> {
            ||| before.step is WriteTombstone && reply matches TombstoneReply::Written(Ok(_))
            ||| before.step is ReadTombstone && after.written == before.written && (
            reply matches TombstoneReply::Read(TombstoneRead::Read { tombstone, check })
                && tombstone.stored@ == before.step->ReadTombstone_job.stored@ && is_authentic(
                tombstone,
                before.store_id@,
                check,
            ))
        },
        after.step is WriteTombstone ==> before.step is ReadTombstone && !(
        reply matches TombstoneReply::Read(TombstoneRead::Read { tombstone, check })
            && tombstone.stored@ == before.step->ReadTombstone_job.stored@ && is_authentic(
            tombstone,
            before.store_id@,
            check,
        )),
{
    if before.step is ReadTombstone {
    } else if before.step is RemoveEntry {
        if reply matches TombstoneReply::Local(Ok(_)) {
            lemma_next_delete_step(before.pending@, before.now);
        }
    }
}

/// A tombstone carries the time of the pass that writes it, and so does the record of a
/// failed attempt; the time of a pass never changes.
pub proof fn law_tombstone_is_dated_by_its_pass(
    before: TombstoneDrain,
    reply: TombstoneReply,
    after: TombstoneDrain,
)
    requires
        before.follows(reply, after),
        before.step != after.step,
    ensures
        after.now == before.now,
        after.now_text == before.now_text,
        after.step matches TombstoneStep::WriteTombstone { deleted_at, .. } ==> deleted_at
            == before.now_text,
        after.step matches TombstoneStep::RecordFailure { attempted_at, .. } ==> attempted_at
            == before.now_text,
{
    lemma_next_delete_step(before.pending@, before.now);
}

proof fn lemma_next_delete_step(pending: Seq<OutboxEntry>, now: Instant)
    ensures
        ({
            let step = next_delete(pending, now).1;
            step is ReadTombstone || step is Done || step is Failed
        }),
    decreases pending.len(),
{
    if pending.len() > 0 {
        lemma_next_delete_step(pending.skip(1), now);
    }
}

/// Who may do what in the store now, and who uploaded what.
#[derive(Debug)]
pub struct Membership {
    /// This device's member.
    pub self_pubkey: String,
    /// Whether this member is an owner, who may reclaim every member's objects.
    pub is_owner: bool,
    /// The members who may write now.
    pub writers: Vec<String>,
    /// The activated uploaders, each with the member it belongs to.
    pub uploaders: Vec<(String, String)>,
}

impl Membership {
    /// Whether this member may write now.
    pub open spec fn may_write(self, pubkey: Seq<char>) -> bool {
        exists|i: int| 0 <= i < self.writers@.len() && (#[trigger] self.writers@[i])@ == pubkey
    }

    /// The member an activated uploader belongs to.
    pub open spec fn author_of(self, uploader: Seq<char>) -> Option<Seq<char>> {
        first_author(self.uploaders@, uploader)
    }

    fn can_write(&self, pubkey: &str) -> (may: bool)
        ensures
            may == self.may_write(pubkey@),
    {
        let mut i: usize = 0;
        while i < self.writers.len()
            invariant
                i <= self.writers.len(),
                forall|j: int| 0 <= j < i ==> (#[trigger] self.writers@[j])@ != pubkey@,
            decreases self.writers.len() - i,
        {
            if same_text(self.writers[i].as_str(), pubkey) {
                assert(self.writers@[i as int]@ == pubkey@);
                return true;
            }
            i = i + 1;
        }
        false
    }

    fn uploader_author(&self, uploader: &str) -> (author: Option<&String>)
        ensures
            match author {
                Some(a) => self.author_of(uploader@) == Some(a@),
                None => self.author_of(uploader@) is None,
            },
    {
        let mut i: usize = 0;
        assert(self.uploaders@.skip(0) =~= self.uploaders@);
        while i < self.uploaders.len()
            invariant
                i <= self.uploaders.len(),
                first_author(self.uploaders@, uploader@) == first_author(
                    self.uploaders@.skip(i as int),
                    uploader@,
                ),
            decreases self.uploaders.len() - i,
        {
            assert(self.uploaders@.skip(i as int)[0] == self.uploaders@[i as int]);
            assert(self.uploaders@.skip(i as int).skip(1) =~= self.uploaders@.skip(i + 1));
            if same_text(self.uploaders[i].0.as_str(), uploader) {
                return Some(&self.uploaders[i].1);
            }
            i = i + 1;
        }
        None
    }
}

/// The member of the first entry with this uploader.
pub open spec fn first_author(uploaders: Seq<(String, String)>, uploader: Seq<char>) -> Option<
    Seq<char>,
>
    decreases uploaders.len(),
{
    if uploaders.len() == 0 {
        None
    } else if uploaders[0].0@ == uploader {
        Some(uploaders[0].1@)
    } else {
        first_author(uploaders.skip(1), uploader)
    }
}

/// Why a collection pass failed.
#[derive(Debug)]
pub enum GcError {
    List(String),
    Read { key: String, detail: String },
    References(String),
    Cancel { key: String, detail: String },
    UnresolvedLocality { key: String },
    UnactivatedUploader { key: String, tombstone: BlobTombstoneJson },
    Recheck { key: String, detail: String },
    Presence { tombstone: BlobTombstoneJson, error: StorageError },
    DeleteBlob { tombstone: BlobTombstoneJson, error: StorageError },
    DeleteTombstone { key: String, detail: String },
}

impl GcError {
    /// The error in words.
    pub open spec fn message_text(self) -> Seq<char> {
        match self {
            GcError::List(detail) => "Failed to list tombstones: "@ + detail@,
            GcError::Read { key, detail } => "Failed to read tombstone "@ + key@ + ": "@ + detail@,
            GcError::References(detail) => "Failed to check live blob references: "@ + detail@,
            GcError::Cancel { key, detail } => "Failed to cancel stale tombstone "@ + key@ + ": "@
                + detail@,
            GcError::UnresolvedLocality { key } => "tombstone "@ + key@
                + " has a live blob reference whose locality is unresolved"@,
            GcError::UnactivatedUploader { key, tombstone } => "tombstone "@ + key@
                + " names an unactivated blob uploader "@ + tombstone.stored@.locator.uploader(),
            GcError::Recheck { key, detail } => "Failed to re-check tombstone "@ + key@
                + " before reclaim: "@ + detail@,
            GcError::Presence { tombstone, error } => "Failed to check blob presence for "@
                + tombstone.stored@.object.logical_key + " before reclaim: "@
                + error@.message_text(),
            GcError::DeleteBlob { tombstone, error } => "Failed to delete blob "@
                + tombstone.stored@.object.logical_key + " past the grace: "@
                + error@.message_text(),
            GcError::DeleteTombstone { key, detail } => "Failed to delete tombstone "@ + key@
                + " after reclaim: "@ + detail@,
        }
    }

    /// The error in words.
    pub fn message(&self) -> (text: String)
        ensures
            text@ == self.message_text(),
    {
        match self {
            GcError::List(detail) => "Failed to list tombstones: ".to_owned().concat(
                detail.as_str(),
            ),
            GcError::Read { key, detail } => "Failed to read tombstone ".to_owned().concat(
                key.as_str(),
            ).concat(": ").concat(detail.as_str()),
            GcError::References(detail) => "Failed to check live blob references: ".to_owned().concat(
                detail.as_str(),
            ),
            GcError::Cancel { key, detail } => "Failed to cancel stale tombstone ".to_owned().concat(
                key.as_str(),
            ).concat(": ").concat(detail.as_str()),
            GcError::UnresolvedLocality { key } => "tombstone ".to_owned().concat(
                key.as_str(),
            ).concat(" has a live blob reference whose locality is unresolved"),
            GcError::UnactivatedUploader { key, tombstone } => "tombstone ".to_owned().concat(
                key.as_str(),
            ).concat(" names an unactivated blob uploader ").concat(
                tombstone.stored.locator.uploader(),
            ),
            GcError::Recheck { key, detail } => "Failed to re-check tombstone ".to_owned().concat(
                key.as_str(),
            ).concat(" before reclaim: ").concat(detail.as_str()),
            GcError::Presence { tombstone, error } => "Failed to check blob presence for ".to_owned().concat(
                tombstone.stored.object.logical_key.as_str(),
            ).concat(" before reclaim: ").concat(error.message().as_str()),
            GcError::DeleteBlob { tombstone, error } => "Failed to delete blob ".to_owned().concat(
                tombstone.stored.object.logical_key.as_str(),
            ).concat(" past the grace: ").concat(error.message().as_str()),
            GcError::DeleteTombstone { key, detail } => "Failed to delete tombstone ".to_owned().concat(
                key.as_str(),
            ).concat(" after reclaim: ").concat(detail.as_str()),
        }
    }
}

/// The operation that a collection pass performs next.
#[derive(Debug)]
pub enum GcStep {
    /// Read the tombstone at this key, which encodes this object.
    ReadTombstone { key: String, object_id: ObjectHash },
    /// Ask whether a live row still refers to the condemned blob.
    CheckReferences { key: String, tombstone: BlobTombstoneJson },
    /// Delete the tombstone because a live row still refers to its blob.
    CancelTombstone { key: String },
    /// Ask whether the tombstone is still there.
    CheckTombstone { key: String, tombstone: BlobTombstoneJson },
    /// Ask whether the blob is there.
    CheckBlob { key: String, tombstone: BlobTombstoneJson },
    /// Delete the blob's exact object.
    DeleteBlob { key: String, tombstone: BlobTombstoneJson },
    /// Delete the tombstone, its blob being gone.
    DeleteTombstone { key: String },
    /// Every tombstone was looked at.
    Done,
    /// The pass failed.
    Failed { error: GcError },
}

/// What the operation answered.
#[derive(Debug)]
pub enum GcReply {
    Read(TombstoneRead),
    References(Result<StoredBlobReferenceState, String>),
    Exists(Result<bool, String>),
    Verified(Result<(), StorageError>),
    BlobDeleted(Result<(), StorageError>),
    TombstoneDeleted(Result<(), String>),
}

/// A pass that collects the tombstones of a store.
pub struct TombstoneGc {
    /// The store.
    pub store_id: String,
    /// The suffix of its tombstone keys.
    pub suffix: String,
    /// Who may do what.
    pub membership: Membership,
    /// The time of the pass.
    pub now: Instant,
    /// How long a deleted blob is kept, in nanoseconds.
    pub grace: i128,
    /// The tombstone keys that were not looked at yet.
    pub keys: VecDeque<String>,
    /// How many blobs this pass deleted.
    pub deleted: u64,
    /// What to perform next.
    pub step: GcStep,
}

/// The next key that fits the layout, and the keys behind it.
pub open spec fn next_tombstone(keys: Seq<String>, suffix: Seq<char>) -> (
    Seq<String>,
    Option<String>,
)
    decreases keys.len(),
{
    if keys.len() == 0 {
        (keys, None)
    } else if key_object_id(keys[0]@, suffix) is Some {
        (keys.skip(1), Some(keys[0]))
    } else {
        next_tombstone(keys.skip(1), suffix)
    }
}

/// Whether a tombstone is past the grace at `now`; one whose time cannot be read never is.
pub open spec fn past_grace(deleted_at: Seq<char>, now: Instant, grace: int) -> bool {
    match rfc3339(deleted_at) {
        Ok((seconds, nanos)) => nanos_between(Instant { seconds, nanos }, now) > grace,
        Err(_) => false,
    }
}

/// Whether a deletion at `deleted_at` is older than the grace at `now`.
pub fn older_than_grace(deleted_at: &Instant, now: &Instant, grace: i128) -> (older: bool)
    ensures
        older == (nanos_between(*deleted_at, *now) > grace),
{
    now.nanos_since(deleted_at) > grace
}

fn is_past_grace(deleted_at: &str, now: &Instant, grace: i128) -> (past: bool)
    ensures
        past == past_grace(deleted_at@, *now, grace as int),
{
    match parse_rfc3339(deleted_at) {
        Ok(at) => older_than_grace(&at, now, grace),
        Err(_) => false,
    }
}

impl TombstoneGc {
    /// Whether the tombstone at hand may still be counted.
    pub open spec fn uncounted(self) -> nat {
        match self.step {
            GcStep::ReadTombstone { .. } => 1,
            GcStep::CheckReferences { .. } => 1,
            GcStep::CheckTombstone { .. } => 1,
            GcStep::CheckBlob { .. } => 1,
            GcStep::DeleteBlob { .. } => 1,
            _ => 0,
        }
    }

    /// The count fits: every tombstone is counted at most once.
    pub open spec fn wf(self) -> bool {
        self.deleted + self.keys@.len() + self.uncounted() <= u64::MAX
    }

    /// Whether a tombstone that was read at a key may be acted on: it condemns the object
    /// that its key encodes, it is authentic in this store, its author may write, and the
    /// grace has passed.
    pub open spec fn is_actionable(
        self,
        object_id: ObjectHash,
        tombstone: BlobTombstoneJson,
        check: SignatureCheck,
    ) -> bool {
        &&& tombstone.stored@.object.object_id == object_id
        &&& is_authentic(tombstone, self.store_id@, check)
        &&& self.membership.may_write(tombstone.author_pubkey@)
        &&& past_grace(tombstone.deleted_at@, self.now, self.grace as int)
    }

    /// Whether this member may reclaim an object of that uploader's member.
    pub open spec fn may_reclaim(self, author: Seq<char>) -> bool {
        author == self.membership.self_pubkey@ || self.membership.is_owner
    }

    /// Everything but the keys, the count and the step.
    pub open spec fn same_pass(self, next: TombstoneGc) -> bool {
        &&& next.store_id == self.store_id
        &&& next.suffix == self.suffix
        &&& next.membership == self.membership
        &&& next.now == self.now
        &&& next.grace == self.grace
    }

    /// The same pass at another step.
    pub open spec fn at(self, step: GcStep) -> TombstoneGc {
        TombstoneGc { step, ..self }
    }

    /// The pass turns to the next tombstone.
    pub open spec fn advanced(self, next: TombstoneGc) -> bool {
        let (keys, found) = next_tombstone(self.keys@, self.suffix@);
        &&& self.same_pass(next)
        &&& next.deleted == self.deleted
        &&& next.keys@ == keys
        &&& match found {
            None => next.step is Done,
            Some(key) => next.step matches GcStep::ReadTombstone { key: k, object_id } && k == key
                && key_object_id(key@, self.suffix@) == Some(hex_text(object_id@)),
        }
    }

    /// What follows on each reply. A reply that does not answer the step changes nothing.
    pub open spec fn follows(self, reply: GcReply, next: TombstoneGc) -> bool {
        match (self.step, reply) {
            (GcStep::ReadTombstone { key, object_id }, GcReply::Read(read)) => match read {
                TombstoneRead::NotFound(detail) => next == self.at(
                    GcStep::Failed { error: GcError::Read { key, detail } },
                ),
                TombstoneRead::Failed(detail) => next == self.at(
                    GcStep::Failed { error: GcError::Read { key, detail } },
                ),
                TombstoneRead::Unopened(_) => self.advanced(next),
                TombstoneRead::Unparsed(_) => self.advanced(next),
                TombstoneRead::Read { tombstone, check } => if self.is_actionable(
                    object_id,
                    tombstone,
                    check,
                ) {
                    next == self.at(GcStep::CheckReferences { key, tombstone })
                } else {
                    self.advanced(next)
                },
            },
            (GcStep::CheckReferences { key, tombstone }, GcReply::References(references)) => {
                match references {
                    Err(detail) => next == self.at(
                        GcStep::Failed { error: GcError::References(detail) },
                    ),
                    Ok(StoredBlobReferenceState::LiveRemote) => next == self.at(
                        GcStep::CancelTombstone { key },
                    ),
                    Ok(StoredBlobReferenceState::Unresolved) => next == self.at(
                        GcStep::Failed { error: GcError::UnresolvedLocality { key } },
                    ),
                    Ok(StoredBlobReferenceState::NotLiveRemote) => {
                        match self.membership.author_of(tombstone.stored@.locator.uploader()) {
                            None => next == self.at(
                                GcStep::Failed {
                                    error: GcError::UnactivatedUploader { key, tombstone },
                                },
                            ),
                            Some(author) => if self.may_reclaim(author) {
                                next == self.at(GcStep::CheckTombstone { key, tombstone })
                            } else {
                                self.advanced(next)
                            },
                        }
                    },
                }
            },
            (GcStep::CancelTombstone { key }, GcReply::TombstoneDeleted(deleted)) => match deleted {
                Ok(_) => self.advanced(next),
                Err(detail) => next == self.at(
                    GcStep::Failed { error: GcError::Cancel { key, detail } },
                ),
            },
            (GcStep::CheckTombstone { key, tombstone }, GcReply::Exists(exists_)) => match exists_ {
                Ok(true) => next == self.at(GcStep::CheckBlob { key, tombstone }),
                Ok(false) => self.advanced(next),
                Err(detail) => next == self.at(
                    GcStep::Failed { error: GcError::Recheck { key, detail } },
                ),
            },
            (GcStep::CheckBlob { key, tombstone }, GcReply::Verified(verified)) => match verified {
                Ok(_) => next == self.at(GcStep::DeleteBlob { key, tombstone }),
                Err(StorageError::NotFound(_)) => next == self.at(GcStep::DeleteTombstone { key }),
                Err(error) => next == self.at(
                    GcStep::Failed { error: GcError::Presence { tombstone, error } },
                ),
            },
            (GcStep::DeleteBlob { key, tombstone }, GcReply::BlobDeleted(deleted)) => match deleted {
                Ok(_) => next == (TombstoneGc { deleted: (self.deleted + 1) as u64, ..self }).at(
                    GcStep::DeleteTombstone { key },
                ),
                Err(error) => next == self.at(
                    GcStep::Failed { error: GcError::DeleteBlob { tombstone, error } },
                ),
            },
            (GcStep::DeleteTombstone { key }, GcReply::TombstoneDeleted(deleted)) => match deleted {
                Ok(_) => self.advanced(next),
                Err(detail) => next == self.at(
                    GcStep::Failed { error: GcError::DeleteTombstone { key, detail } },
                ),
            },
            _ => next == self,
        }
    }

    fn go(self, step: GcStep) -> (next: TombstoneGc)
        ensures
            next == self.at(step),
    {
        TombstoneGc { step, ..self }
    }

    fn advance(self) -> (next: TombstoneGc)
        requires
            self.deleted + self.keys@.len() <= u64::MAX,
        ensures
            self.advanced(next),
            next.wf(),
    {
        let TombstoneGc { store_id, suffix, membership, now, grace, keys, deleted, step: _ } = self;
        let mut keys: VecDeque<String> = keys;
        let ghost all = keys@;
        let ghost mut taken: int = 0;
        assert(all.skip(0) =~= all);
        loop
            invariant
                0 <= taken <= all.len(),
                all == self.keys@,
                keys@ == all.skip(taken),
                next_tombstone(all, suffix@) == next_tombstone(all.skip(taken), suffix@),
                deleted + all.len() <= u64::MAX,
                store_id == self.store_id,
                suffix == self.suffix,
                membership == self.membership,
                now == self.now,
                grace == self.grace,
                deleted == self.deleted,
            decreases all.len() - taken,
        {
            match keys.pop_front() {
                None => {
                    assert(keys@ =~= all.skip(taken));
                    return TombstoneGc {
                        store_id,
                        suffix,
                        membership,
                        now,
                        grace,
                        keys,
                        deleted,
                        step: GcStep::Done,
                    };
                },
                Some(key) => {
                    assert(key == all.skip(taken)[0]);
                    assert(keys@ =~= all.skip(taken).skip(1));
                    assert(all.skip(taken).skip(1) =~= all.skip(taken + 1));
                    match parse_tombstone_key(key.as_str(), suffix.as_str()) {
                        Some(object_id) => {
                            return TombstoneGc {
                                store_id,
                                suffix,
                                membership,
                                now,
                                grace,
                                keys,
                                deleted,
                                step: GcStep::ReadTombstone { key, object_id },
                            };
                        },
                        None => {},
                    }
                    proof {
                        taken = taken + 1;
                    }
                },
            }
        }
    }

    /// Starts a pass over the listed tombstone keys.
    pub fn start(
        store_id: String,
        suffix: String,
        membership: Membership,
        now: Instant,
        grace: i128,
        keys: Result<VecDeque<String>, String>,
    ) -> (pass: TombstoneGc)
        ensures
            pass.wf(),
            pass.store_id == store_id,
            pass.suffix == suffix,
            pass.membership == membership,
            pass.now == now,
            pass.grace == grace,
            pass.deleted == 0,
            match keys {
                Err(detail) => pass.step == (GcStep::Failed { error: GcError::List(detail) }),
                Ok(listed) => {
                    let (rest, found) = next_tombstone(listed@, suffix@);
                    &&& keys_to_read(pass) == fitting_keys(listed@, suffix@)
                    &&& pass.is_start()
                    &&& pass.step is Done ==> pass.keys@.len() == 0
                    &&& pass.keys@ == rest
                    &&& match found {
                        None => pass.step is Done,
                        Some(key) => pass.step matches GcStep::ReadTombstone { key: k, object_id }
                            && k == key && key_object_id(key@, suffix@) == Some(
                            hex_text(object_id@),
                        ),
                    }
                },
            },
    {
        match keys {
            Err(detail) => TombstoneGc {
                store_id,
                suffix,
                membership,
                now,
                grace,
                keys: VecDeque::new(),
                deleted: 0,
                step: GcStep::Failed { error: GcError::List(detail) },
            },
            Ok(keys) => {
                let count: usize = keys.len();
                assert(keys@.len() == count);
                let fresh = TombstoneGc {
                    store_id,
                    suffix,
                    membership,
                    now,
                    grace,
                    keys,
                    deleted: 0,
                    step: GcStep::Done,
                };
                let ghost before = fresh;
                let pass = fresh.advance();
                proof {
                    lemma_advanced_skips_no_key(before, pass);
                }
                pass
            },
        }
    }

    fn actionable(
        &self,
        object_id: &ObjectHash,
        tombstone: &BlobTombstoneJson,
        check: &SignatureCheck,
    ) -> (yes: bool)
        ensures
            yes == self.is_actionable(*object_id, *tombstone, *check),
    {
        tombstone_object_id(&tombstone.stored).same(object_id) && tombstone.verify(
            self.store_id.as_str(),
            check,
        ) && self.membership.can_write(tombstone.author_pubkey.as_str()) && is_past_grace(
            tombstone.deleted_at.as_str(),
            &self.now,
            self.grace,
        )
    }

    /// Takes the reply to the present step and decides the next one.
    pub fn next(self, reply: GcReply) -> (next: TombstoneGc)
        requires
            self.wf(),
        ensures
            self.follows(reply, next),
            next.wf(),
    {
        let TombstoneGc { store_id, suffix, membership, now, grace, keys, deleted, step } = self;
        let here = TombstoneGc {
            store_id,
            suffix,
            membership,
            now,
            grace,
            keys,
            deleted,
            step: GcStep::Done,
        };
        match (step, reply) {
            (GcStep::ReadTombstone { key, object_id }, GcReply::Read(read)) => match read {
                TombstoneRead::NotFound(detail) => here.go(
                    GcStep::Failed { error: GcError::Read { key, detail } },
                ),
                TombstoneRead::Failed(detail) => here.go(
                    GcStep::Failed { error: GcError::Read { key, detail } },
                ),
                TombstoneRead::Unopened(_) => here.advance(),
                TombstoneRead::Unparsed(_) => here.advance(),
                TombstoneRead::Read { tombstone, check } => {
                    if here.actionable(&object_id, &tombstone, &check) {
                        here.go(GcStep::CheckReferences { key, tombstone })
                    } else {
                        here.advance()
                    }
                },
            },
            (GcStep::CheckReferences { key, tombstone }, GcReply::References(references)) => {
                match references {
                    Err(detail) => here.go(GcStep::Failed { error: GcError::References(detail) }),
                    Ok(StoredBlobReferenceState::LiveRemote) => here.go(
                        GcStep::CancelTombstone { key },
                    ),
                    Ok(StoredBlobReferenceState::Unresolved) => here.go(
                        GcStep::Failed { error: GcError::UnresolvedLocality { key } },
                    ),
                    Ok(StoredBlobReferenceState::NotLiveRemote) => {
                        let own: Option<bool> = match here.membership.uploader_author(
                            tombstone.stored.locator.uploader(),
                        ) {
                            None => None,
                            Some(author) => Some(*author == here.membership.self_pubkey),
                        };
                        match own {
                            None => here.go(
                                GcStep::Failed {
                                    error: GcError::UnactivatedUploader { key, tombstone },
                                },
                            ),
                            Some(own) => if own || here.membership.is_owner {
                                here.go(GcStep::CheckTombstone { key, tombstone })
                            } else {
                                here.advance()
                            },
                        }
                    },
                }
            },
            (GcStep::CancelTombstone { key }, GcReply::TombstoneDeleted(gone)) => match gone {
                Ok(_) => here.advance(),
                Err(detail) => here.go(GcStep::Failed { error: GcError::Cancel { key, detail } }),
            },
            (GcStep::CheckTombstone { key, tombstone }, GcReply::Exists(there)) => match there {
                Ok(true) => here.go(GcStep::CheckBlob { key, tombstone }),
                Ok(false) => here.advance(),
                Err(detail) => here.go(GcStep::Failed { error: GcError::Recheck { key, detail } }),
            },
            (GcStep::CheckBlob { key, tombstone }, GcReply::Verified(verified)) => match verified {
                Ok(_) => here.go(GcStep::DeleteBlob { key, tombstone }),
                Err(StorageError::NotFound(_)) => here.go(GcStep::DeleteTombstone { key }),
                Err(error) => here.go(
                    GcStep::Failed { error: GcError::Presence { tombstone, error } },
                ),
            },
            (GcStep::DeleteBlob { key, tombstone }, GcReply::BlobDeleted(gone)) => match gone {
                Ok(_) => TombstoneGc { deleted: deleted + 1, ..here }.go(
                    GcStep::DeleteTombstone { key },
                ),
                Err(error) => here.go(
                    GcStep::Failed { error: GcError::DeleteBlob { tombstone, error } },
                ),
            },
            (GcStep::DeleteTombstone { key }, GcReply::TombstoneDeleted(gone)) => match gone {
                Ok(_) => here.advance(),
                Err(detail) => here.go(
                    GcStep::Failed { error: GcError::DeleteTombstone { key, detail } },
                ),
            },
            (step, _) => here.go(step),
        }
    }
}

impl TombstoneGc {
    /// Whether a tombstone may be acted on, by some check of its signature.
    pub open spec fn is_condemned(self, key: String, tombstone: BlobTombstoneJson) -> bool {
        exists|object_id: ObjectHash, check: SignatureCheck|
            key_object_id(key@, self.suffix@) == Some(hex_text(object_id@)) && #[trigger]
                self.is_actionable(object_id, tombstone, check)
    }

    /// Whether this member may reclaim what a tombstone condemns.
    pub open spec fn is_ours(self, tombstone: BlobTombstoneJson) -> bool {
        self.membership.author_of(tombstone.stored@.locator.uploader()) matches Some(author)
            && self.may_reclaim(author)
    }

    /// What holds at every point: only a tombstone that may be acted on is followed, and
    /// only one of an object that this member may reclaim is followed to a deletion.
    pub open spec fn in_order(self) -> bool {
        match self.step {
            GcStep::ReadTombstone { key, object_id } => key_object_id(key@, self.suffix@) == Some(
                hex_text(object_id@),
            ),
            GcStep::CheckReferences { key, tombstone } => self.is_condemned(key, tombstone),
            GcStep::CheckTombstone { key, tombstone } => self.is_condemned(key, tombstone)
                && self.is_ours(tombstone),
            GcStep::CheckBlob { key, tombstone } => self.is_condemned(key, tombstone)
                && self.is_ours(tombstone),
            GcStep::DeleteBlob { key, tombstone } => self.is_condemned(key, tombstone)
                && self.is_ours(tombstone),
            _ => true,
        }
    }

    /// A pass that has just started.
    pub open spec fn is_start(self) -> bool {
        &&& self.deleted == 0
        &&& self.in_order()
        &&& self.step is ReadTombstone || self.step is Done || self.step is Failed
    }
}

/// One step of a run.
#[verifier::opaque]
pub open spec fn gc_leads(before: TombstoneGc, reply: GcReply, after: TombstoneGc) -> bool {
    before.follows(reply, after)
}

/// A run of a pass: each state follows from the one before by some reply.
pub open spec fn is_gc_run(states: Seq<TombstoneGc>, replies: Seq<GcReply>) -> bool {
    &&& states.len() == replies.len() + 1
    &&& states[0].is_start()
    &&& forall|i: int|
        0 <= i < replies.len() ==> gc_leads(states[i], #[trigger] replies[i], states[i + 1])
}

proof fn lemma_gc_stays_in_order(before: TombstoneGc, reply: GcReply, after: TombstoneGc)
    requires
        gc_leads(before, reply, after),
        before.in_order(),
    ensures
        after.in_order(),
        before.same_pass(after),
{
    reveal(gc_leads);
    match (before.step, reply) {
        (
            GcStep::ReadTombstone { key, object_id },
            GcReply::Read(TombstoneRead::Read { tombstone, check }),
        ) => {
            if before.is_actionable(object_id, tombstone, check) {
                assert(after.is_actionable(object_id, tombstone, check));
            }
        },
        (GcStep::CheckReferences { key, tombstone }, _) => {
            lemma_condemned_stays(before, after, key, tombstone);
        },
        (GcStep::CheckTombstone { key, tombstone }, _) => {
            lemma_condemned_stays(before, after, key, tombstone);
        },
        (GcStep::CheckBlob { key, tombstone }, _) => {
            lemma_condemned_stays(before, after, key, tombstone);
        },
        _ => {},
    }
}

proof fn lemma_condemned_stays(
    before: TombstoneGc,
    after: TombstoneGc,
    key: String,
    tombstone: BlobTombstoneJson,
)
    requires
        before.same_pass(after),
        before.is_condemned(key, tombstone),
    ensures
        after.is_condemned(key, tombstone),
{
    let (object_id, check) = choose|object_id: ObjectHash, check: SignatureCheck|
        key_object_id(key@, before.suffix@) == Some(hex_text(object_id@)) && #[trigger]
            before.is_actionable(object_id, tombstone, check);
    assert(after.is_actionable(object_id, tombstone, check));
}

/// Whatever the operations reply, at every point of every pass: a blob is about to be
/// deleted only for a tombstone that stands at the key of its very object, whose signature
/// holds for this store, whose author may write, whose grace has passed, and whose object
/// was uploaded by this member or this member is an owner.
pub proof fn law_gc_deletes_only_what_is_condemned(
    states: Seq<TombstoneGc>,
    replies: Seq<GcReply>,
    at: int,
)
    requires
        is_gc_run(states, replies),
        0 <= at < states.len(),
    ensures
        states[at].in_order(),
        states[at].step matches GcStep::DeleteBlob { key, tombstone } ==> states[at].is_condemned(
            key,
            tombstone,
        ) && states[at].is_ours(tombstone),
        states[0].same_pass(states[at]),
    decreases at,
{
    if at > 0 {
        law_gc_deletes_only_what_is_condemned(states, replies, at - 1);
        assert(gc_leads(states[at - 1], replies[at - 1], states[at - 1 + 1]));
        lemma_gc_stays_in_order(states[at - 1], replies[at - 1], states[at]);
    }
}

/// A blob is deleted only after no live remote row was found to refer to it, the tombstone
/// was found to be still there, and the object was found to be present; each of these
/// steps is reached only from the one before, with that answer, for the same tombstone.
pub proof fn law_gc_checks_before_it_deletes(
    before: TombstoneGc,
    reply: GcReply,
    after: TombstoneGc,
)
    requires
        before.follows(reply, after),
        before.step != after.step,
    ensures
        after.step matches GcStep::DeleteBlob { key, tombstone } ==> before.step == (
        GcStep::CheckBlob { key, tombstone }) && reply matches GcReply::Verified(Ok(_)),
        after.step matches GcStep::CheckBlob { key, tombstone } ==> before.step == (
        GcStep::CheckTombstone { key, tombstone }) && reply == GcReply::Exists(Ok(true)),
        after.step matches GcStep::CheckTombstone { key, tombstone } ==> before.step == (
        GcStep::CheckReferences { key, tombstone }) && reply == GcReply::References(
            Ok(StoredBlobReferenceState::NotLiveRemote),
        ),
{
}

/// A tombstone is deleted only when its blob was just deleted or found absent, or, where a
/// live remote row refers to the blob, to cancel it; and exactly the deleted blobs are
/// counted.
pub proof fn law_gc_keeps_tombstones_until_their_blob_is_gone(
    before: TombstoneGc,
    reply: GcReply,
    after: TombstoneGc,
)
    requires
        before.follows(reply, after),
        before.step != after.step,
        before.wf(),
    ensures
        after.step is DeleteTombstone ==> {
            ||| before.step is DeleteBlob && reply matches GcReply::BlobDeleted(Ok(_))
            ||| before.step is CheckBlob && reply matches GcReply::Verified(
                Err(StorageError::NotFound(_)),
            )
        },
        after.step is CancelTombstone ==> before.step is CheckReferences && reply
            == GcReply::References(Ok(StoredBlobReferenceState::LiveRemote)),
        after.deleted == before.deleted + (if before.step is DeleteBlob && (
        reply matches GcReply::BlobDeleted(Ok(_))) {
            1int
        } else {
            0int
        }),
{
}

/// A tombstone inside the grace, one whose time cannot be read, one whose signature does
/// not hold here, and one whose author may not write, are all left alone: the pass turns
/// to the next tombstone and deletes nothing.
pub proof fn law_gc_leaves_what_may_not_be_acted_on(
    before: TombstoneGc,
    reply: GcReply,
    after: TombstoneGc,
    tombstone: BlobTombstoneJson,
    check: SignatureCheck,
)
    requires
        before.follows(reply, after),
        before.step is ReadTombstone,
        reply == GcReply::Read(TombstoneRead::Read { tombstone, check }),
        !past_grace(tombstone.deleted_at@, before.now, before.grace as int) || !is_authentic(
            tombstone,
            before.store_id@,
            check,
        ) || !before.membership.may_write(tombstone.author_pubkey@),
    ensures
        before.advanced(after),
        after.deleted == before.deleted,
        after.step is ReadTombstone || after.step is Done,
{
}

/// How many operations a drain has before it at most.
pub open spec fn drain_steps_left(drain: TombstoneDrain) -> nat {
    5 * drain.pending@.len() + match drain.step {
        TombstoneStep::ReadTombstone { .. } => 4nat,
        TombstoneStep::WriteTombstone { .. } => 3,
        TombstoneStep::RemoveEntry { .. } => 2,
        TombstoneStep::RecordFailure { .. } => 1,
        TombstoneStep::Done => 0,
        TombstoneStep::Failed { .. } => 0,
    }
}

pub(crate) proof fn lemma_next_delete_is_shorter(pending: Seq<OutboxEntry>, now: Instant)
    ensures
        next_delete(pending, now).0.len() <= pending.len(),
        next_delete(pending, now).1 is ReadTombstone ==> next_delete(pending, now).0.len()
            < pending.len(),
        next_delete(pending, now).1 is ReadTombstone || next_delete(pending, now).1 is Done
            || next_delete(pending, now).1 is Failed,
    decreases pending.len(),
{
    if pending.len() > 0 {
        lemma_next_delete_is_shorter(pending.skip(1), now);
    }
}

/// Every drain ends: each reply that answers the step brings it nearer to its end, and one
/// that does not changes nothing.
pub proof fn law_tombstone_drain_ends(
    before: TombstoneDrain,
    reply: TombstoneReply,
    after: TombstoneDrain,
)
    requires
        before.follows(reply, after),
    ensures
        after == before || drain_steps_left(after) < drain_steps_left(before),
{
    lemma_next_delete_is_shorter(before.pending@, before.now);
}

/// How many operations a pass has before it at most.
pub open spec fn pass_steps_left(pass: TombstoneGc) -> nat {
    8 * pass.keys@.len() + match pass.step {
        GcStep::ReadTombstone { .. } => 7nat,
        GcStep::CheckReferences { .. } => 6,
        GcStep::CheckTombstone { .. } => 5,
        GcStep::CheckBlob { .. } => 4,
        GcStep::DeleteBlob { .. } => 3,
        GcStep::DeleteTombstone { .. } => 2,
        GcStep::CancelTombstone { .. } => 1,
        GcStep::Done => 0,
        GcStep::Failed { .. } => 0,
    }
}

pub(crate) proof fn lemma_next_tombstone_is_shorter(keys: Seq<String>, suffix: Seq<char>)
    ensures
        next_tombstone(keys, suffix).0.len() <= keys.len(),
        next_tombstone(keys, suffix).1 is Some ==> next_tombstone(keys, suffix).0.len()
            < keys.len(),
    decreases keys.len(),
{
    if keys.len() > 0 {
        lemma_next_tombstone_is_shorter(keys.skip(1), suffix);
    }
}

/// Every pass ends: each reply that answers the step brings it nearer to its end, and one
/// that does not changes nothing.
pub proof fn law_gc_pass_ends(before: TombstoneGc, reply: GcReply, after: TombstoneGc)
    requires
        before.follows(reply, after),
    ensures
        after == before || pass_steps_left(after) < pass_steps_left(before),
{
    lemma_next_tombstone_is_shorter(before.keys@, before.suffix@);
}

} // verus!
