//! Blob locators: the exact cloud slot of one version of a blob, and the facts that
//! verify its bytes. A locator is committed with the row that refers to the blob.

use vstd::prelude::*;
use vstd::std_specs::convert::TryFromSpecImpl;
use vstd::string::*;

use crate::blob::BlobScope;
use crate::digest::{all_hex_chars, hex_text, is_hex_text, is_object_hash_text, law_object_hash_text_round_trip, lemma_hex_text_injective, lemma_hex_text_is_hex, sha256, CircleId, KeyFingerprint, ObjectHash};
use crate::json::{alike, count_members, differ, distinct_names, is_leaf_text, is_value_text, json_members, json_number, json_quoted, json_string, lemma_first_members_apart, lemma_member_map, lemma_numbers_apart, lemma_objects_apart, member, member_count, member_map, member_views, number_text, object_text, quote, quotes_apart, read_number, read_object, read_string, read_string_member, string_member, writable, write_number, write_object};
use crate::store_dir::{cloud_path_fault, is_forbidden_char, segments, shard_fault, shard_text, split_text, texts, token_fault, validate_cloud_path, validate_path_token, StoreDir};
use crate::text::{chars_of, debug_quote, debug_text, same_bytes, same_text};

verus! {

/// Who a row is shared with.
#[derive(Debug, Clone, Copy, PartialEq, Eq)]
pub enum Audience {
    /// Every member of the store.
    Store,
    /// The members of one circle.
    Circle(CircleId),
    /// This device alone.
    Local,
}

/// An audience whose rows live in the cloud. A local row has no blob locator.
#[derive(Debug, Clone, Copy, PartialEq, Eq, PartialOrd, Ord, Hash)]
pub enum RemoteAudience {
    /// Every member of the store.
    Store,
    /// The members of one circle.
    Circle(CircleId),
}

impl RemoteAudience {
    /// Whether two audiences are the same.
    pub fn same(&self, other: &RemoteAudience) -> (same: bool)
        ensures
            same == (*self == *other),
    {
        match (self, other) {
            (RemoteAudience::Store, RemoteAudience::Store) => true,
            (RemoteAudience::Circle(a), RemoteAudience::Circle(b)) => a.same(b),
            _ => false,
        }
    }
}

impl TryFrom<Audience> for RemoteAudience {
    type Error = BlobLocatorError;

    fn try_from(value: Audience) -> (audience: Result<RemoteAudience, BlobLocatorError>) {
        match value {
            Audience::Store => Ok(RemoteAudience::Store),
            Audience::Circle(circle_id) => Ok(RemoteAudience::Circle(circle_id)),
            Audience::Local => Err(BlobLocatorError::LocalAudience),
        }
    }
}

impl TryFromSpecImpl<Audience> for RemoteAudience {
    open spec fn obeys_try_from_spec() -> bool {
        true
    }

    open spec fn try_from_spec(value: Audience) -> Result<RemoteAudience, BlobLocatorError> {
        match value {
            Audience::Store => Ok(RemoteAudience::Store),
            Audience::Circle(circle_id) => Ok(RemoteAudience::Circle(circle_id)),
            Audience::Local => Err(BlobLocatorError::LocalAudience),
        }
    }
}

/// The exact semantic cloud slot and verification facts committed with one row.
#[derive(Debug, PartialEq, Eq)]
pub enum BlobLocator {
    /// The stored bytes are sealed.
    Opaque {
        namespace: String,
        blob_id: String,
        uploader: String,
        audience: RemoteAudience,
        scope: BlobScope,
        key_fingerprint: KeyFingerprint,
        semantic_key: String,
        plaintext_size: u64,
        plaintext_hash: ObjectHash,
    },
    /// The stored bytes are the plaintext, under a readable path.
    Browsable {
        namespace: String,
        blob_id: String,
        uploader: String,
        cloud_path: String,
        semantic_key: String,
        plaintext_size: u64,
        plaintext_hash: ObjectHash,
    },
}

/// What a [`BlobLocator`] says.
pub ghost enum LocatorView {
    Opaque {
        namespace: Seq<char>,
        blob_id: Seq<char>,
        uploader: Seq<char>,
        audience: RemoteAudience,
        scope: Option<Seq<char>>,
        key_fingerprint: KeyFingerprint,
        semantic_key: Seq<char>,
        plaintext_size: u64,
        plaintext_hash: ObjectHash,
    },
    Browsable {
        namespace: Seq<char>,
        blob_id: Seq<char>,
        uploader: Seq<char>,
        cloud_path: Seq<char>,
        semantic_key: Seq<char>,
        plaintext_size: u64,
        plaintext_hash: ObjectHash,
    },
}

impl View for BlobLocator {
    type V = LocatorView;

    open spec fn view(&self) -> LocatorView {
        match self {
            BlobLocator::Opaque {
                namespace,
                blob_id,
                uploader,
                audience,
                scope,
                key_fingerprint,
                semantic_key,
                plaintext_size,
                plaintext_hash,
            } => LocatorView::Opaque {
                namespace: namespace@,
                blob_id: blob_id@,
                uploader: uploader@,
                audience: *audience,
                scope: scope@,
                key_fingerprint: *key_fingerprint,
                semantic_key: semantic_key@,
                plaintext_size: *plaintext_size,
                plaintext_hash: *plaintext_hash,
            },
            BlobLocator::Browsable {
                namespace,
                blob_id,
                uploader,
                cloud_path,
                semantic_key,
                plaintext_size,
                plaintext_hash,
            } => LocatorView::Browsable {
                namespace: namespace@,
                blob_id: blob_id@,
                uploader: uploader@,
                cloud_path: cloud_path@,
                semantic_key: semantic_key@,
                plaintext_size: *plaintext_size,
                plaintext_hash: *plaintext_hash,
            },
        }
    }
}

impl Clone for BlobLocator {
    fn clone(&self) -> (copy: BlobLocator)
        ensures
            copy == *self,
    {
        match self {
            BlobLocator::Opaque {
                namespace,
                blob_id,
                uploader,
                audience,
                scope,
                key_fingerprint,
                semantic_key,
                plaintext_size,
                plaintext_hash,
            } => BlobLocator::Opaque {
                namespace: namespace.clone(),
                blob_id: blob_id.clone(),
                uploader: uploader.clone(),
                audience: *audience,
                scope: scope.clone(),
                key_fingerprint: *key_fingerprint,
                semantic_key: semantic_key.clone(),
                plaintext_size: *plaintext_size,
                plaintext_hash: *plaintext_hash,
            },
            BlobLocator::Browsable {
                namespace,
                blob_id,
                uploader,
                cloud_path,
                semantic_key,
                plaintext_size,
                plaintext_hash,
            } => BlobLocator::Browsable {
                namespace: namespace.clone(),
                blob_id: blob_id.clone(),
                uploader: uploader.clone(),
                cloud_path: cloud_path.clone(),
                semantic_key: semantic_key.clone(),
                plaintext_size: *plaintext_size,
                plaintext_hash: *plaintext_hash,
            },
        }
    }
}

/// Why a locator could not be built or read.
#[derive(Debug, PartialEq, Eq)]
pub enum BlobLocatorError {
    /// A local row has no locator.
    LocalAudience,
    /// The namespace is no path token.
    UnsafeNamespace { value: String, reason: String },
    /// The blob id is no path token, or cannot be partitioned.
    UnsafeBlobId { value: String, reason: String },
    /// The uploader is no lowercase hexadecimal public key.
    UnsafeUploader { value: String, reason: String },
    /// The readable path could leave its folder.
    UnsafeCloudPath { value: String, reason: String },
    /// The readable path uses the segment that separates versions.
    ReservedCloudPath { value: String },
    /// The semantic key is not the one that the other fields give.
    SemanticKeyMismatch { expected: String, actual: String },
    /// The bytes are no locator.
    Malformed(String),
    /// The bytes are a locator, written in another way than the canonical one.
    NonCanonicalEncoding,
}

/// What a [`BlobLocatorError`] says.
pub ghost enum LocatorErrorView {
    LocalAudience,
    UnsafeNamespace { value: Seq<char>, reason: Seq<char> },
    UnsafeBlobId { value: Seq<char>, reason: Seq<char> },
    UnsafeUploader { value: Seq<char>, reason: Seq<char> },
    UnsafeCloudPath { value: Seq<char>, reason: Seq<char> },
    ReservedCloudPath { value: Seq<char> },
    SemanticKeyMismatch { expected: Seq<char>, actual: Seq<char> },
    Malformed(Seq<char>),
    NonCanonicalEncoding,
}

impl View for BlobLocatorError {
    type V = LocatorErrorView;

    open spec fn view(&self) -> LocatorErrorView {
        match self {
            BlobLocatorError::LocalAudience => LocatorErrorView::LocalAudience,
            BlobLocatorError::UnsafeNamespace { value, reason } => {
                LocatorErrorView::UnsafeNamespace { value: value@, reason: reason@ }
            },
            BlobLocatorError::UnsafeBlobId { value, reason } => {
                LocatorErrorView::UnsafeBlobId { value: value@, reason: reason@ }
            },
            BlobLocatorError::UnsafeUploader { value, reason } => {
                LocatorErrorView::UnsafeUploader { value: value@, reason: reason@ }
            },
            BlobLocatorError::UnsafeCloudPath { value, reason } => {
                LocatorErrorView::UnsafeCloudPath { value: value@, reason: reason@ }
            },
            BlobLocatorError::ReservedCloudPath { value } => {
                LocatorErrorView::ReservedCloudPath { value: value@ }
            },
            BlobLocatorError::SemanticKeyMismatch { expected, actual } => {
                LocatorErrorView::SemanticKeyMismatch { expected: expected@, actual: actual@ }
            },
            BlobLocatorError::Malformed(reason) => LocatorErrorView::Malformed(reason@),
            BlobLocatorError::NonCanonicalEncoding => LocatorErrorView::NonCanonicalEncoding,
        }
    }
}

impl LocatorErrorView {
    /// The error in words.
    pub open spec fn message_text(self) -> Seq<char> {
        match self {
            LocatorErrorView::LocalAudience => "Local audience has no blob locator"@,
            LocatorErrorView::UnsafeNamespace { value, reason } => "unsafe blob namespace "@
                + debug_text(value) + ": "@ + reason,
            LocatorErrorView::UnsafeBlobId { value, reason } => "unsafe blob id "@ + debug_text(
                value,
            ) + ": "@ + reason,
            LocatorErrorView::UnsafeUploader { value, reason } => "unsafe blob uploader "@
                + debug_text(value) + ": "@ + reason,
            LocatorErrorView::UnsafeCloudPath { value, reason } => "unsafe readable blob path "@
                + debug_text(value) + ": "@ + reason,
            LocatorErrorView::ReservedCloudPath { value } => {
                "readable blob path uses reserved segment: "@ + debug_text(value)
            },
            LocatorErrorView::SemanticKeyMismatch { expected, actual } => {
                "blob semantic key mismatch: expected "@ + debug_text(expected) + ", found "@
                    + debug_text(actual)
            },
            LocatorErrorView::Malformed(reason) => "malformed blob locator: "@ + reason,
            LocatorErrorView::NonCanonicalEncoding => "blob locator bytes are not canonical"@,
        }
    }
}

impl BlobLocatorError {
    /// The error in words.
    pub fn message(&self) -> (text: String)
        ensures
            text@ == self@.message_text(),
    {
        match self {
            BlobLocatorError::LocalAudience => "Local audience has no blob locator".to_owned(),
            BlobLocatorError::UnsafeNamespace { value, reason } => "unsafe blob namespace ".to_owned().concat(
                debug_quote(value.as_str()).as_str(),
            ).concat(": ").concat(reason.as_str()),
            BlobLocatorError::UnsafeBlobId { value, reason } => "unsafe blob id ".to_owned().concat(
                debug_quote(value.as_str()).as_str(),
            ).concat(": ").concat(reason.as_str()),
            BlobLocatorError::UnsafeUploader { value, reason } => "unsafe blob uploader ".to_owned().concat(
                debug_quote(value.as_str()).as_str(),
            ).concat(": ").concat(reason.as_str()),
            BlobLocatorError::UnsafeCloudPath { value, reason } => "unsafe readable blob path ".to_owned().concat(
                debug_quote(value.as_str()).as_str(),
            ).concat(": ").concat(reason.as_str()),
            BlobLocatorError::ReservedCloudPath { value } => "readable blob path uses reserved segment: ".to_owned().concat(
                debug_quote(value.as_str()).as_str(),
            ),
            BlobLocatorError::SemanticKeyMismatch { expected, actual } => "blob semantic key mismatch: expected ".to_owned().concat(
                debug_quote(expected.as_str()).as_str(),
            ).concat(", found ").concat(debug_quote(actual.as_str()).as_str()),
            BlobLocatorError::Malformed(reason) => "malformed blob locator: ".to_owned().concat(
                reason.as_str(),
            ),
            BlobLocatorError::NonCanonicalEncoding => "blob locator bytes are not canonical".to_owned(),
        }
    }
}

/// Why an uploader is refused, or `None` where it is a 32-byte lowercase hexadecimal
/// public key.
pub open spec fn uploader_fault(uploader: Seq<char>) -> Option<Seq<char>> {
    if let Some(fault) = token_fault(uploader) {
        Some(fault.message_text())
    } else if !(uploader.len() == 64 && is_hex_text(uploader)) {
        Some("uploader must be a 32-byte lowercase hexadecimal public key"@)
    } else {
        None
    }
}

/// The cloud key of a sealed blob, or why it has none.
pub open spec fn opaque_key(
    namespace: Seq<char>,
    uploader: Seq<char>,
    key_fingerprint: KeyFingerprint,
    blob_id: Seq<char>,
) -> Result<Seq<char>, LocatorErrorView> {
    if let Some(fault) = token_fault(namespace) {
        Err(LocatorErrorView::UnsafeNamespace { value: namespace, reason: fault.message_text() })
    } else if let Some(reason) = uploader_fault(uploader) {
        Err(LocatorErrorView::UnsafeUploader { value: uploader, reason })
    } else if let Some(fault) = shard_fault(blob_id) {
        Err(LocatorErrorView::UnsafeBlobId { value: blob_id, reason: fault.message_text() })
    } else {
        Ok(
            namespace + "/opaque/"@ + uploader + "/"@ + hex_text(key_fingerprint@) + "/"@
                + shard_text(blob_id),
        )
    }
}

/// The cloud key of a blob stored in the clear, or why it has none.
pub open spec fn browsable_key(
    namespace: Seq<char>,
    cloud_path: Seq<char>,
    uploader: Seq<char>,
    blob_id: Seq<char>,
    plaintext_hash: ObjectHash,
) -> Result<Seq<char>, LocatorErrorView> {
    if let Some(fault) = token_fault(namespace) {
        Err(LocatorErrorView::UnsafeNamespace { value: namespace, reason: fault.message_text() })
    } else if let Some(reason) = uploader_fault(uploader) {
        Err(LocatorErrorView::UnsafeUploader { value: uploader, reason })
    } else if let Some(fault) = token_fault(blob_id) {
        Err(LocatorErrorView::UnsafeBlobId { value: blob_id, reason: fault.message_text() })
    } else if let Some(fault) = cloud_path_fault(cloud_path) {
        Err(LocatorErrorView::UnsafeCloudPath { value: cloud_path, reason: fault.message_text() })
    } else if segments(cloud_path, '/').contains(".coven-versions"@) {
        Err(LocatorErrorView::ReservedCloudPath { value: cloud_path })
    } else {
        Ok(
            namespace + "/readable/"@ + cloud_path + "/.coven-versions/"@ + uploader + "/"@
                + blob_id + "/"@ + hex_text(plaintext_hash@),
        )
    }
}

impl LocatorView {
    /// The semantic key the locator carries.
    pub open spec fn key(self) -> Seq<char> {
        match self {
            LocatorView::Opaque { semantic_key, .. } => semantic_key,
            LocatorView::Browsable { semantic_key, .. } => semantic_key,
        }
    }

    /// The semantic key that its other fields give.
    pub open spec fn expected_key(self) -> Result<Seq<char>, LocatorErrorView> {
        match self {
            LocatorView::Opaque { namespace, blob_id, uploader, key_fingerprint, .. } => opaque_key(
                namespace,
                uploader,
                key_fingerprint,
                blob_id,
            ),
            LocatorView::Browsable {
                namespace,
                blob_id,
                uploader,
                cloud_path,
                plaintext_hash,
                ..
            } => browsable_key(namespace, cloud_path, uploader, blob_id, plaintext_hash),
        }
    }

    /// Why the locator is refused, or `None` where its key is the one its fields give.
    pub open spec fn fault(self) -> Option<LocatorErrorView> {
        match self.expected_key() {
            Err(fault) => Some(fault),
            Ok(expected) => if self.key() != expected {
                Some(LocatorErrorView::SemanticKeyMismatch { expected, actual: self.key() })
            } else {
                None
            },
        }
    }

    /// The blob's category.
    pub open spec fn namespace(self) -> Seq<char> {
        match self {
            LocatorView::Opaque { namespace, .. } => namespace,
            LocatorView::Browsable { namespace, .. } => namespace,
        }
    }

    /// The blob's id.
    pub open spec fn blob_id(self) -> Seq<char> {
        match self {
            LocatorView::Opaque { blob_id, .. } => blob_id,
            LocatorView::Browsable { blob_id, .. } => blob_id,
        }
    }

    /// Who wrote it.
    pub open spec fn uploader(self) -> Seq<char> {
        match self {
            LocatorView::Opaque { uploader, .. } => uploader,
            LocatorView::Browsable { uploader, .. } => uploader,
        }
    }

    /// The plaintext's length.
    pub open spec fn plaintext_size(self) -> u64 {
        match self {
            LocatorView::Opaque { plaintext_size, .. } => plaintext_size,
            LocatorView::Browsable { plaintext_size, .. } => plaintext_size,
        }
    }

    /// The plaintext's hash.
    pub open spec fn plaintext_hash(self) -> ObjectHash {
        match self {
            LocatorView::Opaque { plaintext_hash, .. } => plaintext_hash,
            LocatorView::Browsable { plaintext_hash, .. } => plaintext_hash,
        }
    }
}

/// A text without a separator of path segments.
spec fn is_one_segment(s: Seq<char>) -> bool {
    forall|i: int| 0 <= i < s.len() ==> #[trigger] s[i] != '/'
}

proof fn lemma_token_is_one_segment(s: Seq<char>)
    requires
        token_fault(s) is None,
    ensures
        is_one_segment(s),
{
    assert forall|i: int| 0 <= i < s.len() implies #[trigger] s[i] != '/' by {
        assert(!is_forbidden_char(s[i]));
    }
}

/// The first segment of a path, and what follows it, are determined by the path.
proof fn lemma_first_segment(a: Seq<char>, x: Seq<char>, b: Seq<char>, y: Seq<char>)
    requires
        is_one_segment(a),
        is_one_segment(b),
        x.len() > 0 && x[0] == '/',
        y.len() > 0 && y[0] == '/',
        a + x == b + y,
    ensures
        a == b,
        x == y,
{
    let (p, q) = (a + x, b + y);
    if a.len() < b.len() {
        assert(p[a.len() as int] == x[0]);
        assert(q[a.len() as int] == b[a.len() as int]);
    } else if b.len() < a.len() {
        assert(q[b.len() as int] == y[0]);
        assert(p[b.len() as int] == a[b.len() as int]);
    }
    assert(a =~= p.take(a.len() as int));
    assert(b =~= q.take(b.len() as int));
    assert(x =~= p.skip(a.len() as int));
    assert(y =~= q.skip(b.len() as int));
}

/// The last segment of a path, and what precedes it, are determined by the path.
proof fn lemma_last_segment(x: Seq<char>, a: Seq<char>, y: Seq<char>, b: Seq<char>)
    requires
        is_one_segment(a),
        is_one_segment(b),
        x.len() > 0 && x.last() == '/',
        y.len() > 0 && y.last() == '/',
        x + a == y + b,
    ensures
        a == b,
        x == y,
{
    let (p, q) = (x + a, y + b);
    assert(p.len() == x.len() + a.len() && q.len() == y.len() + b.len());
    if x.len() < y.len() {
        assert(q[y.len() - 1] == y.last());
        assert(p[y.len() - 1] == a[y.len() - 1 - x.len()]);
    } else if y.len() < x.len() {
        assert(p[x.len() - 1] == x.last());
        assert(q[x.len() - 1] == b[x.len() - 1 - y.len()]);
    }
    assert(x =~= p.take(x.len() as int));
    assert(y =~= q.take(y.len() as int));
    assert(a =~= p.skip(x.len() as int));
    assert(b =~= q.skip(y.len() as int));
}

/// What follows the namespace in the key of a sealed blob.
spec fn opaque_rest(uploader: Seq<char>, key_fingerprint: KeyFingerprint, blob_id: Seq<char>) -> Seq<
    char,
> {
    "/opaque/"@ + uploader + "/"@ + hex_text(key_fingerprint@) + "/"@ + shard_text(blob_id)
}

/// What follows the namespace in the key of a blob stored in the clear.
spec fn browsable_rest(
    cloud_path: Seq<char>,
    uploader: Seq<char>,
    blob_id: Seq<char>,
    plaintext_hash: ObjectHash,
) -> Seq<char> {
    "/readable/"@ + cloud_path + "/.coven-versions/"@ + uploader + "/"@ + blob_id + "/"@
        + hex_text(plaintext_hash@)
}

proof fn lemma_opaque_rest(
    uploader: Seq<char>,
    fingerprint: KeyFingerprint,
    id: Seq<char>,
    other_uploader: Seq<char>,
    other_fingerprint: KeyFingerprint,
    other_id: Seq<char>,
)
    requires
        uploader.len() == 64,
        other_uploader.len() == 64,
        id.len() >= 4,
        other_id.len() >= 4,
        opaque_rest(uploader, fingerprint, id) == opaque_rest(
            other_uploader,
            other_fingerprint,
            other_id,
        ),
    ensures
        uploader == other_uploader,
        fingerprint == other_fingerprint,
        id == other_id,
{
    reveal_strlit("/opaque/");
    reveal_strlit("/");
    KeyFingerprint::lemma_bytes_determine(fingerprint, other_fingerprint);
    KeyFingerprint::lemma_bytes_determine(other_fingerprint, fingerprint);
    let (p, q) = (
        opaque_rest(uploader, fingerprint, id),
        opaque_rest(other_uploader, other_fingerprint, other_id),
    );
    let n = hex_text(fingerprint@).len() as int;
    assert(hex_text(other_fingerprint@).len() == n);
    assert(p.subrange(8, 72) =~= uploader);
    assert(q.subrange(8, 72) =~= other_uploader);
    assert(p.subrange(73, 73 + n) =~= hex_text(fingerprint@));
    assert(q.subrange(73, 73 + n) =~= hex_text(other_fingerprint@));
    assert(p.skip(80 + n) =~= id);
    assert(q.skip(80 + n) =~= other_id);
    lemma_hex_text_injective(fingerprint@, other_fingerprint@);
}

proof fn lemma_browsable_rest(
    path: Seq<char>,
    uploader: Seq<char>,
    id: Seq<char>,
    hash: ObjectHash,
    other_path: Seq<char>,
    other_uploader: Seq<char>,
    other_id: Seq<char>,
    other_hash: ObjectHash,
)
    requires
        uploader.len() == 64,
        other_uploader.len() == 64,
        is_one_segment(id),
        is_one_segment(other_id),
        browsable_rest(path, uploader, id, hash) == browsable_rest(
            other_path,
            other_uploader,
            other_id,
            other_hash,
        ),
    ensures
        path == other_path,
        uploader == other_uploader,
        id == other_id,
        hash == other_hash,
{
    reveal_strlit("/readable/");
    reveal_strlit("/.coven-versions/");
    reveal_strlit("/");
    law_object_hash_text_round_trip(hash);
    law_object_hash_text_round_trip(other_hash);
    let (p, q) = (
        browsable_rest(path, uploader, id, hash),
        browsable_rest(other_path, other_uploader, other_id, other_hash),
    );
    let (front, other_front) = (
        "/readable/"@ + path + "/.coven-versions/"@ + uploader + "/"@,
        "/readable/"@ + other_path + "/.coven-versions/"@ + other_uploader + "/"@,
    );
    assert(p.skip(p.len() - 64) =~= hex_text(hash@));
    assert(q.skip(q.len() - 64) =~= hex_text(other_hash@));
    assert(p.take(p.len() - 65) =~= front + id);
    assert(q.take(q.len() - 65) =~= other_front + other_id);
    lemma_last_segment(front, id, other_front, other_id);
    let end = front.len() as int;
    assert(front.subrange(end - 65, end - 1) =~= uploader);
    assert(other_front.subrange(end - 65, end - 1) =~= other_uploader);
    assert(front.subrange(10, end - 82) =~= path);
    assert(other_front.subrange(10, end - 82) =~= other_path);
}

/// What follows the namespace in the key of a locator.
spec fn key_rest(locator: LocatorView) -> Seq<char> {
    match locator {
        LocatorView::Opaque { uploader, key_fingerprint, blob_id, .. } => opaque_rest(
            uploader,
            key_fingerprint,
            blob_id,
        ),
        LocatorView::Browsable { cloud_path, uploader, blob_id, plaintext_hash, .. } => {
            browsable_rest(cloud_path, uploader, blob_id, plaintext_hash)
        },
    }
}

proof fn lemma_key_rest(locator: LocatorView)
    requires
        locator.fault() is None,
    ensures
        locator.key() == locator.namespace() + key_rest(locator),
        key_rest(locator).len() > 1,
        key_rest(locator)[0] == '/',
        key_rest(locator)[1] == (if locator is Opaque {
            'o'
        } else {
            'r'
        }),
        is_one_segment(locator.namespace()),
{
    reveal_strlit("/opaque/");
    reveal_strlit("/readable/");
    lemma_token_is_one_segment(locator.namespace());
    assert(locator.key() =~= locator.namespace() + key_rest(locator));
}

/// A semantic key names one slot: two sound locators with the same key protect the blob
/// in the same way and agree on its namespace, uploader and id; two sealed ones agree on
/// the key that sealed them, and two readable ones on the path and the plaintext.
pub proof fn law_semantic_key_names_one_slot(a: LocatorView, b: LocatorView)
    requires
        a.fault() is None,
        b.fault() is None,
        a.key() == b.key(),
    ensures
        a.namespace() == b.namespace(),
        a.uploader() == b.uploader(),
        a.blob_id() == b.blob_id(),
        match (a, b) {
            (
                LocatorView::Opaque { key_fingerprint: x, .. },
                LocatorView::Opaque { key_fingerprint: y, .. },
            ) => x == y,
            (
                LocatorView::Browsable { cloud_path: x, .. },
                LocatorView::Browsable { cloud_path: y, .. },
            ) => x == y && a.plaintext_hash() == b.plaintext_hash(),
            _ => false,
        },
{
    let (rest_a, rest_b) = (key_rest(a), key_rest(b));
    lemma_key_rest(a);
    lemma_key_rest(b);
    lemma_first_segment(a.namespace(), rest_a, b.namespace(), rest_b);
    match (a, b) {
        (
            LocatorView::Opaque { uploader, key_fingerprint, blob_id, .. },
            LocatorView::Opaque {
                uploader: other_uploader,
                key_fingerprint: other_fingerprint,
                blob_id: other_id,
                ..
            },
        ) => {
            lemma_opaque_rest(
                uploader,
                key_fingerprint,
                blob_id,
                other_uploader,
                other_fingerprint,
                other_id,
            );
        },
        (
            LocatorView::Browsable { cloud_path, uploader, blob_id, plaintext_hash, .. },
            LocatorView::Browsable {
                cloud_path: other_path,
                uploader: other_uploader,
                blob_id: other_id,
                plaintext_hash: other_hash,
                ..
            },
        ) => {
            lemma_token_is_one_segment(blob_id);
            lemma_token_is_one_segment(other_id);
            lemma_browsable_rest(
                cloud_path,
                uploader,
                blob_id,
                plaintext_hash,
                other_path,
                other_uploader,
                other_id,
                other_hash,
            );
        },
        _ => {
            assert(rest_a[1] != rest_b[1]);
        },
    }
}

fn validate_namespace(namespace: &str) -> (checked: Result<(), BlobLocatorError>)
    ensures
        match token_fault(namespace@) {
            Some(fault) => checked matches Err(error) && error@ == (
            LocatorErrorView::UnsafeNamespace {
                value: namespace@,
                reason: fault.message_text(),
            }),
            None => checked is Ok,
        },
{
    match validate_path_token(namespace) {
        Ok(()) => Ok(()),
        Err(fault) => Err(
            BlobLocatorError::UnsafeNamespace {
                value: namespace.to_owned(),
                reason: fault.message(),
            },
        ),
    }
}

fn validate_uploader(uploader: &str) -> (checked: Result<(), BlobLocatorError>)
    ensures
        match uploader_fault(uploader@) {
            Some(reason) => checked matches Err(error) && error@ == (
            LocatorErrorView::UnsafeUploader { value: uploader@, reason }),
            None => checked is Ok,
        },
{
    match validate_path_token(uploader) {
        Ok(()) => {},
        Err(fault) => return Err(
            BlobLocatorError::UnsafeUploader { value: uploader.to_owned(), reason: fault.message() },
        ),
    }
    let chars: Vec<char> = chars_of(uploader);
    if chars.len() != 64 || !all_hex_chars(chars.as_slice()) {
        return Err(
            BlobLocatorError::UnsafeUploader {
                value: uploader.to_owned(),
                reason: "uploader must be a 32-byte lowercase hexadecimal public key".to_owned(),
            },
        );
    }
    Ok(())
}

fn opaque_semantic_key(
    namespace: &str,
    uploader: &str,
    key_fingerprint: KeyFingerprint,
    blob_id: &str,
) -> (key: Result<String, BlobLocatorError>)
    ensures
        match opaque_key(namespace@, uploader@, key_fingerprint, blob_id@) {
            Ok(text) => key matches Ok(k) && k@ == text,
            Err(fault) => key matches Err(error) && error@ == fault,
        },
{
    match validate_namespace(namespace) {
        Err(error) => return Err(error),
        Ok(()) => {},
    }
    match validate_uploader(uploader) {
        Err(error) => return Err(error),
        Ok(()) => {},
    }
    match StoreDir::id_shard(blob_id) {
        Err(fault) => Err(
            BlobLocatorError::UnsafeBlobId { value: blob_id.to_owned(), reason: fault.message() },
        ),
        Ok(shard) => Ok(
            namespace.to_owned().concat("/opaque/").concat(uploader).concat("/").concat(
                key_fingerprint.to_text().as_str(),
            ).concat("/").concat(shard.as_str()),
        ),
    }
}

fn holds_segment(path: &str, segment: &str) -> (found: bool)
    ensures
        found == segments(path@, '/').contains(segment@),
{
    let parts: Vec<String> = split_text(path, '/');
    let mut i: usize = 0;
    while i < parts.len()
        invariant
            i <= parts.len(),
            texts(parts@) == segments(path@, '/'),
            forall|j: int| 0 <= j < i ==> texts(parts@)[j] != segment@,
        decreases parts.len() - i,
    {
        assert(texts(parts@)[i as int] == parts@[i as int]@);
        if same_text(parts[i].as_str(), segment) {
            return true;
        }
        i = i + 1;
    }
    false
}

fn browsable_semantic_key(
    namespace: &str,
    cloud_path: &str,
    uploader: &str,
    blob_id: &str,
    plaintext_hash: ObjectHash,
) -> (key: Result<String, BlobLocatorError>)
    ensures
        match browsable_key(namespace@, cloud_path@, uploader@, blob_id@, plaintext_hash) {
            Ok(text) => key matches Ok(k) && k@ == text,
            Err(fault) => key matches Err(error) && error@ == fault,
        },
{
    match validate_namespace(namespace) {
        Err(error) => return Err(error),
        Ok(()) => {},
    }
    match validate_uploader(uploader) {
        Err(error) => return Err(error),
        Ok(()) => {},
    }
    match validate_path_token(blob_id) {
        Err(fault) => return Err(
            BlobLocatorError::UnsafeBlobId { value: blob_id.to_owned(), reason: fault.message() },
        ),
        Ok(()) => {},
    }
    match validate_cloud_path(cloud_path) {
        Err(fault) => return Err(
            BlobLocatorError::UnsafeCloudPath {
                value: cloud_path.to_owned(),
                reason: fault.message(),
            },
        ),
        Ok(()) => {},
    }
    if holds_segment(cloud_path, ".coven-versions") {
        return Err(BlobLocatorError::ReservedCloudPath { value: cloud_path.to_owned() });
    }
    Ok(
        namespace.to_owned().concat("/readable/").concat(cloud_path).concat(
            "/.coven-versions/",
        ).concat(uploader).concat("/").concat(blob_id).concat("/").concat(
            plaintext_hash.to_text().as_str(),
        ),
    )
}

impl BlobLocator {
    /// Locates a sealed blob. Its cloud key is derived from the other values; values that
    /// cannot stand in a key are refused.
    pub fn opaque(
        namespace: String,
        blob_id: String,
        uploader: String,
        audience: RemoteAudience,
        scope: BlobScope,
        key_fingerprint: KeyFingerprint,
        plaintext_size: u64,
        plaintext_hash: ObjectHash,
    ) -> (built: Result<BlobLocator, BlobLocatorError>)
        ensures
            match opaque_key(namespace@, uploader@, key_fingerprint, blob_id@) {
                Err(fault) => built matches Err(error) && error@ == fault,
                Ok(key) => built matches Ok(locator) && locator@ == (LocatorView::Opaque {
                    namespace: namespace@,
                    blob_id: blob_id@,
                    uploader: uploader@,
                    audience,
                    scope: scope@,
                    key_fingerprint,
                    semantic_key: key,
                    plaintext_size,
                    plaintext_hash,
                }) && locator@.fault() is None,
            },
    {
        match opaque_semantic_key(
            namespace.as_str(),
            uploader.as_str(),
            key_fingerprint,
            blob_id.as_str(),
        ) {
            Err(error) => Err(error),
            Ok(semantic_key) => Ok(
                BlobLocator::Opaque {
                    namespace,
                    blob_id,
                    uploader,
                    audience,
                    scope,
                    key_fingerprint,
                    semantic_key,
                    plaintext_size,
                    plaintext_hash,
                },
            ),
        }
    }

    /// Locates a blob stored in the clear under a readable path.
    pub fn browsable(
        namespace: String,
        blob_id: String,
        uploader: String,
        cloud_path: String,
        plaintext_size: u64,
        plaintext_hash: ObjectHash,
    ) -> (built: Result<BlobLocator, BlobLocatorError>)
        ensures
            match browsable_key(namespace@, cloud_path@, uploader@, blob_id@, plaintext_hash) {
                Err(fault) => built matches Err(error) && error@ == fault,
                Ok(key) => built matches Ok(locator) && locator@ == (LocatorView::Browsable {
                    namespace: namespace@,
                    blob_id: blob_id@,
                    uploader: uploader@,
                    cloud_path: cloud_path@,
                    semantic_key: key,
                    plaintext_size,
                    plaintext_hash,
                }) && locator@.fault() is None,
            },
    {
        match browsable_semantic_key(
            namespace.as_str(),
            cloud_path.as_str(),
            uploader.as_str(),
            blob_id.as_str(),
            plaintext_hash,
        ) {
            Err(error) => Err(error),
            Ok(semantic_key) => Ok(
                BlobLocator::Browsable {
                    namespace,
                    blob_id,
                    uploader,
                    cloud_path,
                    semantic_key,
                    plaintext_size,
                    plaintext_hash,
                },
            ),
        }
    }

    /// The cloud key that the locator names.
    pub fn semantic_key(&self) -> (key: &str)
        ensures
            key@ == self@.key(),
    {
        match self {
            BlobLocator::Opaque { semantic_key, .. } => semantic_key.as_str(),
            BlobLocator::Browsable { semantic_key, .. } => semantic_key.as_str(),
        }
    }

    /// The blob's category.
    pub fn namespace(&self) -> (namespace: &str)
        ensures
            namespace@ == self@.namespace(),
    {
        match self {
            BlobLocator::Opaque { namespace, .. } => namespace.as_str(),
            BlobLocator::Browsable { namespace, .. } => namespace.as_str(),
        }
    }

    /// The blob's id.
    pub fn blob_id(&self) -> (blob_id: &str)
        ensures
            blob_id@ == self@.blob_id(),
    {
        match self {
            BlobLocator::Opaque { blob_id, .. } => blob_id.as_str(),
            BlobLocator::Browsable { blob_id, .. } => blob_id.as_str(),
        }
    }

    /// The public key of the device that wrote the object.
    pub fn uploader(&self) -> (uploader: &str)
        ensures
            uploader@ == self@.uploader(),
    {
        match self {
            BlobLocator::Opaque { uploader, .. } => uploader.as_str(),
            BlobLocator::Browsable { uploader, .. } => uploader.as_str(),
        }
    }

    /// Who may read it: a blob in the clear is the whole store's.
    pub fn audience(&self) -> (audience: RemoteAudience)
        ensures
            audience == (match self@ {
                LocatorView::Opaque { audience, .. } => audience,
                LocatorView::Browsable { .. } => RemoteAudience::Store,
            }),
    {
        match self {
            BlobLocator::Opaque { audience, .. } => *audience,
            BlobLocator::Browsable { .. } => RemoteAudience::Store,
        }
    }

    /// The plaintext's length.
    pub fn plaintext_size(&self) -> (size: u64)
        ensures
            size == self@.plaintext_size(),
    {
        match self {
            BlobLocator::Opaque { plaintext_size, .. } => *plaintext_size,
            BlobLocator::Browsable { plaintext_size, .. } => *plaintext_size,
        }
    }

    /// The plaintext's hash.
    pub fn plaintext_hash(&self) -> (hash: ObjectHash)
        ensures
            hash == self@.plaintext_hash(),
    {
        match self {
            BlobLocator::Opaque { plaintext_hash, .. } => *plaintext_hash,
            BlobLocator::Browsable { plaintext_hash, .. } => *plaintext_hash,
        }
    }

    /// Which key sealed it, where it is sealed.
    pub fn scope(&self) -> (scope: Option<&BlobScope>)
        ensures
            match self@ {
                LocatorView::Opaque { scope: named, .. } => scope matches Some(s) && s@ == named,
                LocatorView::Browsable { .. } => scope is None,
            },
    {
        match self {
            BlobLocator::Opaque { scope, .. } => Some(scope),
            BlobLocator::Browsable { .. } => None,
        }
    }

    /// The fingerprint of the key that sealed it, where it is sealed.
    pub fn key_fingerprint(&self) -> (fingerprint: Option<KeyFingerprint>)
        ensures
            fingerprint == (match self@ {
                LocatorView::Opaque { key_fingerprint, .. } => Some(key_fingerprint),
                LocatorView::Browsable { .. } => None,
            }),
    {
        match self {
            BlobLocator::Opaque { key_fingerprint, .. } => Some(*key_fingerprint),
            BlobLocator::Browsable { .. } => None,
        }
    }

    /// The readable path, where it is stored in the clear.
    pub fn cloud_path(&self) -> (path: Option<&str>)
        ensures
            match self@ {
                LocatorView::Opaque { .. } => path is None,
                LocatorView::Browsable { cloud_path, .. } => path matches Some(p) && p@
                    == cloud_path,
            },
    {
        match self {
            BlobLocator::Opaque { .. } => None,
            BlobLocator::Browsable { cloud_path, .. } => Some(cloud_path.as_str()),
        }
    }

    /// The suffix of the stored object's name.
    pub fn storage_suffix(&self) -> (suffix: &'static str)
        ensures
            suffix@ == (match self@ {
                LocatorView::Opaque { .. } => ".enc"@,
                LocatorView::Browsable { .. } => ""@,
            }),
    {
        match self {
            BlobLocator::Opaque { .. } => ".enc",
            BlobLocator::Browsable { .. } => "",
        }
    }

    /// Whether the stored bytes are sealed, so that each chunk of them can be verified.
    pub fn is_sealed(&self) -> (sealed: bool)
        ensures
            sealed == (self@ is Opaque),
    {
        match self {
            BlobLocator::Opaque { .. } => true,
            BlobLocator::Browsable { .. } => false,
        }
    }

    /// Checks that the semantic key is the one that the other fields give.
    pub fn validate(&self) -> (checked: Result<(), BlobLocatorError>)
        ensures
            match self@.fault() {
                Some(fault) => checked matches Err(error) && error@ == fault,
                None => checked is Ok,
            },
    {
        let expected = match self {
            BlobLocator::Opaque { namespace, blob_id, uploader, key_fingerprint, .. } => opaque_semantic_key(
                namespace.as_str(),
                uploader.as_str(),
                *key_fingerprint,
                blob_id.as_str(),
            ),
            BlobLocator::Browsable {
                namespace,
                blob_id,
                uploader,
                cloud_path,
                plaintext_hash,
                ..
            } => browsable_semantic_key(
                namespace.as_str(),
                cloud_path.as_str(),
                uploader.as_str(),
                blob_id.as_str(),
                *plaintext_hash,
            ),
        };
        match expected {
            Err(error) => Err(error),
            Ok(expected) => {
                if !same_text(self.semantic_key(), expected.as_str()) {
                    return Err(
                        BlobLocatorError::SemanticKeyMismatch {
                            expected,
                            actual: self.semantic_key().to_owned(),
                        },
                    );
                }
                Ok(())
            },
        }
    }
}

/// The canonical JSON text of an audience.
pub open spec fn audience_text(audience: RemoteAudience) -> Seq<u8> {
    match audience {
        RemoteAudience::Store => json_quoted("store"@),
        RemoteAudience::Circle(circle) => object_text(
            seq![("circle"@, json_quoted(hex_text(circle@)))],
        ),
    }
}

/// The canonical JSON text of a scope.
pub open spec fn scope_text(scope: Option<Seq<char>>) -> Seq<u8> {
    match scope {
        None => json_quoted("Master"@),
        Some(name) => object_text(seq![("Derived"@, json_quoted(name))]),
    }
}

impl LocatorView {
    /// The members of the canonical JSON object, in their order.
    pub open spec fn members(self) -> Seq<(Seq<char>, Seq<u8>)> {
        match self {
            LocatorView::Opaque {
                namespace,
                blob_id,
                uploader,
                audience,
                scope,
                key_fingerprint,
                semantic_key,
                plaintext_size,
                plaintext_hash,
            } => seq![
                ("protection"@, json_quoted("opaque"@)),
                ("namespace"@, json_quoted(namespace)),
                ("blob_id"@, json_quoted(blob_id)),
                ("uploader"@, json_quoted(uploader)),
                ("audience"@, audience_text(audience)),
                ("scope"@, scope_text(scope)),
                ("key_fingerprint"@, json_quoted(hex_text(key_fingerprint@))),
                ("semantic_key"@, json_quoted(semantic_key)),
                ("plaintext_size"@, number_text(plaintext_size)),
                ("plaintext_hash"@, json_quoted(hex_text(plaintext_hash@))),
            ],
            LocatorView::Browsable {
                namespace,
                blob_id,
                uploader,
                cloud_path,
                semantic_key,
                plaintext_size,
                plaintext_hash,
            } => seq![
                ("protection"@, json_quoted("browsable"@)),
                ("namespace"@, json_quoted(namespace)),
                ("blob_id"@, json_quoted(blob_id)),
                ("uploader"@, json_quoted(uploader)),
                ("cloud_path"@, json_quoted(cloud_path)),
                ("semantic_key"@, json_quoted(semantic_key)),
                ("plaintext_size"@, number_text(plaintext_size)),
                ("plaintext_hash"@, json_quoted(hex_text(plaintext_hash@))),
            ],
        }
    }

    /// The canonical bytes of the locator.
    pub open spec fn canonical(self) -> Seq<u8> {
        object_text(self.members())
    }
}

/// The text of this audience differs from that of every other.
spec fn audiences_apart(audience: RemoteAudience) -> bool {
    forall|other: RemoteAudience|
        other != audience ==> differ(audience_text(audience), #[trigger] audience_text(other))
}

/// The text of this scope differs from that of every other.
spec fn scopes_apart(scope: Option<Seq<char>>) -> bool {
    forall|other: Option<Seq<char>>|
        other != scope ==> differ(scope_text(scope), #[trigger] scope_text(other))
}

/// An object's text differs from a string's, which begins with a quotation mark.
proof fn lemma_object_is_no_string(members: Seq<(Seq<char>, Seq<u8>)>, text: Seq<u8>)
    requires
        text.len() > 0 && text[0] == 34,
    ensures
        differ(object_text(members), text),
        differ(text, object_text(members)),
{
    assert(object_text(members)[0] == 123);
    assert(text[0] != object_text(members)[0]);
    assert(object_text(members)[0] != text[0]);
}

proof fn lemma_single_strings_apart(name: Seq<char>, value: Seq<char>, other: Seq<char>)
    requires
        quotes_apart(value),
        other != value,
    ensures
        differ(
            object_text(seq![(name, json_quoted(value))]),
            object_text(seq![(name, json_quoted(other))]),
        ),
{
    let (a, b) = (seq![(name, json_quoted(value))], seq![(name, json_quoted(other))]);
    assert(alike(a, b));
    lemma_objects_apart(a, b);
    if a == b {
        assert(a[0].1 == b[0].1);
    }
}

fn audience_json(audience: &RemoteAudience) -> (bytes: Vec<u8>)
    ensures
        bytes@ == audience_text(*audience),
        audiences_apart(*audience),
{
    let store: Vec<u8> = quote("store");
    match audience {
        RemoteAudience::Store => {
            assert forall|other: RemoteAudience| other != *audience implies differ(
                audience_text(*audience),
                #[trigger] audience_text(other),
            ) by {
                lemma_object_is_no_string(
                    seq![("circle"@, json_quoted(hex_text(other->Circle_0@)))],
                    store@,
                );
            }
            store
        },
        RemoteAudience::Circle(circle) => {
            let mut members: Vec<(String, Vec<u8>)> = Vec::new();
            members.push(("circle".to_owned(), quote(circle.to_text().as_str())));
            assert(member_views(members@) =~= seq![("circle"@, json_quoted(hex_text(circle@)))]);
            assert forall|other: RemoteAudience| other != *audience implies differ(
                audience_text(*audience),
                #[trigger] audience_text(other),
            ) by {
                match other {
                    RemoteAudience::Store => {
                        lemma_object_is_no_string(
                            seq![("circle"@, json_quoted(hex_text(circle@)))],
                            store@,
                        );
                    },
                    RemoteAudience::Circle(another) => {
                        if hex_text(another@) == hex_text(circle@) {
                            lemma_hex_text_injective(another@, circle@);
                            CircleId::lemma_bytes_determine(another, *circle);
                        }
                        lemma_single_strings_apart(
                            "circle"@,
                            hex_text(circle@),
                            hex_text(another@),
                        );
                    },
                }
            }
            write_object(&members)
        },
    }
}

fn scope_json(scope: &BlobScope) -> (bytes: Vec<u8>)
    ensures
        bytes@ == scope_text(scope@),
        scopes_apart(scope@),
{
    let master: Vec<u8> = quote("Master");
    match scope {
        BlobScope::Master => {
            assert forall|other: Option<Seq<char>>| other != scope@ implies differ(
                scope_text(scope@),
                #[trigger] scope_text(other),
            ) by {
                lemma_object_is_no_string(seq![("Derived"@, json_quoted(other->0))], master@);
            }
            master
        },
        BlobScope::Derived(name) => {
            let mut members: Vec<(String, Vec<u8>)> = Vec::new();
            members.push(("Derived".to_owned(), quote(name.as_str())));
            assert(member_views(members@) =~= seq![("Derived"@, json_quoted(name@))]);
            assert forall|other: Option<Seq<char>>| other != scope@ implies differ(
                scope_text(scope@),
                #[trigger] scope_text(other),
            ) by {
                match other {
                    None => {
                        lemma_object_is_no_string(seq![("Derived"@, json_quoted(name@))], master@);
                    },
                    Some(another) => {
                        lemma_single_strings_apart("Derived"@, name@, another);
                    },
                }
            }
            write_object(&members)
        },
    }
}

/// The texts of all fields of a locator differ from those of other values.
spec fn fields_apart(locator: LocatorView) -> bool {
    match locator {
        LocatorView::Opaque {
            namespace,
            blob_id,
            uploader,
            audience,
            scope,
            key_fingerprint,
            semantic_key,
            plaintext_size,
            plaintext_hash,
        } => {
            &&& quotes_apart("opaque"@)
            &&& quotes_apart(namespace)
            &&& quotes_apart(blob_id)
            &&& quotes_apart(uploader)
            &&& audiences_apart(audience)
            &&& scopes_apart(scope)
            &&& quotes_apart(hex_text(key_fingerprint@))
            &&& quotes_apart(semantic_key)
            &&& quotes_apart(hex_text(plaintext_hash@))
        },
        LocatorView::Browsable {
            namespace,
            blob_id,
            uploader,
            cloud_path,
            semantic_key,
            plaintext_size,
            plaintext_hash,
        } => {
            &&& quotes_apart("browsable"@)
            &&& quotes_apart(namespace)
            &&& quotes_apart(blob_id)
            &&& quotes_apart(uploader)
            &&& quotes_apart(cloud_path)
            &&& quotes_apart(semantic_key)
            &&& quotes_apart(hex_text(plaintext_hash@))
        },
    }
}

proof fn lemma_locators_apart(locator: LocatorView, other: LocatorView)
    requires
        fields_apart(locator),
        other != locator,
    ensures
        differ(locator.canonical(), other.canonical()),
{
    let (a, b) = (locator.members(), other.members());
    if (locator is Opaque) != (other is Opaque) {
        reveal_strlit("opaque");
        reveal_strlit("browsable");
        assert("opaque"@.len() != "browsable"@.len());
        lemma_first_members_apart(a, b);
    } else {
        lemma_numbers_apart(locator.plaintext_size(), other.plaintext_size());
        law_object_hash_text_round_trip(locator.plaintext_hash());
        if let LocatorView::Opaque { key_fingerprint: x, .. } = locator {
            if let LocatorView::Opaque { key_fingerprint: y, .. } = other {
                if hex_text(x@) == hex_text(y@) {
                    lemma_hex_text_injective(x@, y@);
                    KeyFingerprint::lemma_bytes_determine(x, y);
                }
            }
        }
        assert(alike(a, b));
        lemma_objects_apart(a, b);
        if a == b {
            assert(a[1].1 == b[1].1 && a[2].1 == b[2].1 && a[3].1 == b[3].1 && a[4].1 == b[4].1);
            assert(a[5].1 == b[5].1 && a[6].1 == b[6].1 && a[7].1 == b[7].1);
            if locator is Opaque {
                assert(a[8].1 == b[8].1 && a[9].1 == b[9].1);
            }
        }
    }
}

impl BlobLocator {
    /// The canonical bytes of the locator: one JSON object, its members in a fixed order
    /// and without any space. No other locator's bytes are these or begin with them.
    pub fn to_bytes(&self) -> (bytes: Vec<u8>)
        ensures
            bytes@ == self@.canonical(),
            forall|other: LocatorView|
                other != self@ ==> differ(bytes@, #[trigger] other.canonical()),
    {
        let mut members: Vec<(String, Vec<u8>)> = Vec::new();
        match self {
            BlobLocator::Opaque {
                namespace,
                blob_id,
                uploader,
                audience,
                scope,
                key_fingerprint,
                semantic_key,
                plaintext_size,
                plaintext_hash,
            } => {
                members.push(("protection".to_owned(), quote("opaque")));
                members.push(("namespace".to_owned(), quote(namespace.as_str())));
                members.push(("blob_id".to_owned(), quote(blob_id.as_str())));
                members.push(("uploader".to_owned(), quote(uploader.as_str())));
                members.push(("audience".to_owned(), audience_json(audience)));
                members.push(("scope".to_owned(), scope_json(scope)));
                members.push(
                    ("key_fingerprint".to_owned(), quote(key_fingerprint.to_text().as_str())),
                );
                members.push(("semantic_key".to_owned(), quote(semantic_key.as_str())));
                members.push(("plaintext_size".to_owned(), write_number(*plaintext_size)));
                members.push(
                    ("plaintext_hash".to_owned(), quote(plaintext_hash.to_text().as_str())),
                );
            },
            BlobLocator::Browsable {
                namespace,
                blob_id,
                uploader,
                cloud_path,
                semantic_key,
                plaintext_size,
                plaintext_hash,
            } => {
                members.push(("protection".to_owned(), quote("browsable")));
                members.push(("namespace".to_owned(), quote(namespace.as_str())));
                members.push(("blob_id".to_owned(), quote(blob_id.as_str())));
                members.push(("uploader".to_owned(), quote(uploader.as_str())));
                members.push(("cloud_path".to_owned(), quote(cloud_path.as_str())));
                members.push(("semantic_key".to_owned(), quote(semantic_key.as_str())));
                members.push(("plaintext_size".to_owned(), write_number(*plaintext_size)));
                members.push(
                    ("plaintext_hash".to_owned(), quote(plaintext_hash.to_text().as_str())),
                );
            },
        }
        assert(member_views(members@) =~= self@.members());
        assert(fields_apart(self@));
        assert forall|other: LocatorView| other != self@ implies differ(
            self@.canonical(),
            #[trigger] other.canonical(),
        ) by {
            lemma_locators_apart(self@, other);
        }
        write_object(&members)
    }

    /// The locator's identity: the digest of its canonical bytes.
    pub fn locator_hash(&self) -> (hash: ObjectHash)
        ensures
            hash@ == sha256(self@.canonical()),
    {
        ObjectHash::digest(self.to_bytes().as_slice())
    }
}

/// The audience that a JSON text names.
pub open spec fn audience_of(bytes: Seq<u8>) -> Option<RemoteAudience> {
    if json_string(bytes) is Ok {
        if json_string(bytes)->Ok_0 == "store"@ {
            Some(RemoteAudience::Store)
        } else {
            None
        }
    } else if json_members(bytes) is Ok && json_members(bytes)->Ok_0.len() == 1 {
        match string_member(json_members(bytes)->Ok_0, "circle"@) {
            Some(text) => if text.len() == 32 && is_hex_text(text) {
                Some(RemoteAudience::Circle(choose|c: CircleId| hex_text(c@) == text))
            } else {
                None
            },
            None => None,
        }
    } else {
        None
    }
}

/// The scope that a JSON text names.
pub open spec fn scope_of(bytes: Seq<u8>) -> Option<Option<Seq<char>>> {
    if json_string(bytes) is Ok {
        if json_string(bytes)->Ok_0 == "Master"@ {
            Some(None)
        } else {
            None
        }
    } else if json_members(bytes) is Ok && json_members(bytes)->Ok_0.len() == 1 {
        match string_member(json_members(bytes)->Ok_0, "Derived"@) {
            Some(name) => Some(Some(name)),
            None => None,
        }
    } else {
        None
    }
}

/// The hash that the string member `name` holds.
pub open spec fn hash_member(members: Map<Seq<char>, Seq<u8>>, name: Seq<char>) -> Option<
    ObjectHash,
> {
    match string_member(members, name) {
        Some(text) => if is_object_hash_text(text) {
            Some(choose|h: ObjectHash| hex_text(h@) == text)
        } else {
            None
        },
        None => None,
    }
}

/// The fingerprint that the string member `name` holds.
pub open spec fn fingerprint_member(members: Map<Seq<char>, Seq<u8>>, name: Seq<char>) -> Option<
    KeyFingerprint,
> {
    match string_member(members, name) {
        Some(text) => if text.len() == 16 && is_hex_text(text) {
            Some(choose|k: KeyFingerprint| hex_text(k@) == text)
        } else {
            None
        },
        None => None,
    }
}

/// The number member `name`.
pub open spec fn number_member(members: Map<Seq<char>, Seq<u8>>, name: Seq<char>) -> Option<u64> {
    if members.contains_key(name) && json_number(members[name]) is Ok {
        Some(json_number(members[name])->Ok_0)
    } else {
        None
    }
}

/// The locator that the members of a JSON object make, or `None` where a member is
/// missing, unknown or of another type.
pub open spec fn locator_of(members: Map<Seq<char>, Seq<u8>>) -> Option<LocatorView> {
    let common = (
        string_member(members, "namespace"@),
        string_member(members, "blob_id"@),
        string_member(members, "uploader"@),
        string_member(members, "semantic_key"@),
        number_member(members, "plaintext_size"@),
        hash_member(members, "plaintext_hash"@),
    );
    match (string_member(members, "protection"@), common) {
        (
            Some(tag),
            (
                Some(namespace),
                Some(blob_id),
                Some(uploader),
                Some(semantic_key),
                Some(plaintext_size),
                Some(plaintext_hash),
            ),
        ) => if tag == "opaque"@ {
            match (
                members.contains_key("audience"@),
                members.contains_key("scope"@),
                fingerprint_member(members, "key_fingerprint"@),
            ) {
                (true, true, Some(key_fingerprint)) => match (
                    audience_of(members["audience"@]),
                    scope_of(members["scope"@]),
                ) {
                    (Some(audience), Some(scope)) => if members.len() == 10 {
                        Some(
                            LocatorView::Opaque {
                                namespace,
                                blob_id,
                                uploader,
                                audience,
                                scope,
                                key_fingerprint,
                                semantic_key,
                                plaintext_size,
                                plaintext_hash,
                            },
                        )
                    } else {
                        None
                    },
                    _ => None,
                },
                _ => None,
            }
        } else if tag == "browsable"@ {
            match string_member(members, "cloud_path"@) {
                Some(cloud_path) => if members.len() == 8 {
                    Some(
                        LocatorView::Browsable {
                            namespace,
                            blob_id,
                            uploader,
                            cloud_path,
                            semantic_key,
                            plaintext_size,
                            plaintext_hash,
                        },
                    )
                } else {
                    None
                },
                None => None,
            }
        } else {
            None
        },
        _ => None,
    }
}

/// What reading canonical bytes gives: a sound locator, or why the bytes are refused.
pub open spec fn parsed_locator(bytes: Seq<u8>) -> Result<LocatorView, LocatorErrorView> {
    match json_members(bytes) {
        Err(reason) => Err(LocatorErrorView::Malformed(reason)),
        Ok(members) => match locator_of(members) {
            None => Err(LocatorErrorView::Malformed("blob locator has an unknown shape"@)),
            Some(locator) => if locator.canonical() != bytes && doubles_a_member(bytes, members) {
                Err(LocatorErrorView::Malformed("blob locator writes a member twice"@))
            } else {
                accepted_locator(locator, bytes)
            },
        },
    }
}

/// Whether the value of this member, where it is an object, writes a member of its own
/// twice.
pub open spec fn doubles_inside(members: Map<Seq<char>, Seq<u8>>, name: Seq<char>) -> bool {
    &&& members.contains_key(name)
    &&& json_members(members[name]) is Ok
    &&& member_count(members[name]) != json_members(members[name])->Ok_0.len()
}

/// Whether the text of a locator with these members writes one of them twice, or one of
/// its audience or scope.
pub open spec fn doubles_a_member(bytes: Seq<u8>, members: Map<Seq<char>, Seq<u8>>) -> bool {
    ||| member_count(bytes) != members.len()
    ||| doubles_inside(members, "audience"@)
    ||| doubles_inside(members, "scope"@)
}

fn finds_double_inside(members: &Vec<(String, Vec<u8>)>, name: &str) -> (found: bool)
    requires
        distinct_names(member_views(members@)),
    ensures
        found == doubles_inside(member_map(member_views(members@)), name@),
{
    match member(members, name) {
        None => false,
        Some(bytes) => match read_object(bytes.as_slice()) {
            Err(_) => false,
            Ok(inner) => {
                proof {
                    lemma_member_map(member_views(inner@), name@);
                }
                count_members(bytes.as_slice()) != inner.len()
            },
        },
    }
}

fn finds_double(bytes: &[u8], members: &Vec<(String, Vec<u8>)>) -> (found: bool)
    requires
        distinct_names(member_views(members@)),
    ensures
        found == doubles_a_member(bytes@, member_map(member_views(members@))),
{
    proof {
        lemma_member_map(member_views(members@), "audience"@);
    }
    count_members(bytes) != members.len() || finds_double_inside(members, "audience")
        || finds_double_inside(members, "scope")
}

/// What a decoded locator is worth: it is accepted where it is sound and `bytes` are its
/// canonical bytes.
pub open spec fn accepted_locator(locator: LocatorView, bytes: Seq<u8>) -> Result<
    LocatorView,
    LocatorErrorView,
> {
    match locator.fault() {
        Some(fault) => Err(fault),
        None => if locator.canonical() != bytes {
            Err(LocatorErrorView::NonCanonicalEncoding)
        } else {
            Ok(locator)
        },
    }
}

fn read_hash_member(members: &Vec<(String, Vec<u8>)>, name: &str) -> (hash: Option<ObjectHash>)
    requires
        distinct_names(member_views(members@)),
    ensures
        hash == hash_member(member_map(member_views(members@)), name@),
        forall|value: ObjectHash|
            member_map(member_views(members@)).contains_pair(
                name@,
                json_quoted(#[trigger] hex_text(value@)),
            ) ==> hash == Some(value),
{
    assert forall|value: ObjectHash| is_object_hash_text(#[trigger] hex_text(value@)) by {
        law_object_hash_text_round_trip(value);
    }
    match read_string_member(members, name) {
        None => None,
        Some(text) => match ObjectHash::parse(text.as_str()) {
            Err(_) => None,
            Ok(hash) => {
                proof {
                    law_object_hash_text_round_trip(hash);
                    let chosen = choose|h: ObjectHash| hex_text(h@) == text@;
                    assert(hex_text(chosen@) == text@);
                    assert forall|value: ObjectHash|
                        member_map(member_views(members@)).contains_pair(
                            name@,
                            json_quoted(#[trigger] hex_text(value@)),
                        ) implies value == hash by {
                        assert(text@ == hex_text(value@));
                    }
                }
                Some(hash)
            },
        },
    }
}

fn read_fingerprint_member(members: &Vec<(String, Vec<u8>)>, name: &str) -> (fingerprint: Option<
    KeyFingerprint,
>)
    requires
        distinct_names(member_views(members@)),
    ensures
        fingerprint == fingerprint_member(member_map(member_views(members@)), name@),
        forall|value: KeyFingerprint|
            member_map(member_views(members@)).contains_pair(
                name@,
                json_quoted(#[trigger] hex_text(value@)),
            ) ==> fingerprint == Some(value),
{
    assert forall|value: KeyFingerprint|
        (#[trigger] hex_text(value@)).len() == 16 && is_hex_text(hex_text(value@)) by {
        KeyFingerprint::lemma_bytes_determine(value, value);
        lemma_hex_text_is_hex(value@);
    }
    match read_string_member(members, name) {
        None => None,
        Some(text) => match KeyFingerprint::parse(text.as_str()) {
            None => None,
            Some(fingerprint) => {
                assert forall|value: KeyFingerprint| #[trigger]
                    hex_text(value@) == text@ implies value == fingerprint by {
                    lemma_hex_text_injective(value@, fingerprint@);
                    KeyFingerprint::lemma_bytes_determine(value, fingerprint);
                }
                proof {
                    let chosen = choose|k: KeyFingerprint| hex_text(k@) == text@;
                    assert(hex_text(chosen@) == text@);
                }
                Some(fingerprint)
            },
        },
    }
}

fn read_number_member(members: &Vec<(String, Vec<u8>)>, name: &str) -> (number: Option<u64>)
    requires
        distinct_names(member_views(members@)),
    ensures
        number == number_member(member_map(member_views(members@)), name@),
        forall|value: u64|
            member_map(member_views(members@)).contains_pair(name@, #[trigger] number_text(value))
                ==> number == Some(value),
{
    match member(members, name) {
        None => None,
        Some(bytes) => match read_number(bytes.as_slice()) {
            Ok(number) => Some(number),
            Err(_) => None,
        },
    }
}

/// An object with one string member is one that can be read back.
proof fn lemma_single_string_is_writable(name: Seq<char>, value: Seq<char>)
    ensures
        writable(seq![(name, json_quoted(value))]),
        member_map(seq![(name, json_quoted(value))]).contains_pair(name, json_quoted(value)),
        member_map(seq![(name, json_quoted(value))]).len() == 1,
{
    let members = seq![(name, json_quoted(value))];
    assert(is_leaf_text(members[0].1));
    assert(is_value_text(members[0].1));
    lemma_member_map(members, name);
    assert(members[0].0 == name);
}

fn read_audience(bytes: &Vec<u8>) -> (audience: Option<RemoteAudience>)
    ensures
        audience == audience_of(bytes@),
        forall|value: RemoteAudience|
            bytes@ == #[trigger] audience_text(value) ==> audience == Some(value),
{
    assert forall|c: CircleId| (#[trigger] hex_text(c@)).len() == 32 && is_hex_text(
        hex_text(c@),
    ) by {
        CircleId::lemma_bytes_determine(c, c);
        lemma_hex_text_is_hex(c@);
    }
    proof {
        assert forall|c: CircleId| writable(
            seq![("circle"@, json_quoted(#[trigger] hex_text(c@)))],
        ) by {
            lemma_single_string_is_writable("circle"@, hex_text(c@));
        }
    }
    match read_string(bytes.as_slice()) {
        Ok(text) => {
            if same_text(text.as_str(), "store") {
                Some(RemoteAudience::Store)
            } else {
                None
            }
        },
        Err(_) => match read_object(bytes.as_slice()) {
            Err(_) => None,
            Ok(members) => {
                let ghost map = member_map(member_views(members@));
                proof {
                    lemma_member_map(member_views(members@), "circle"@);
                    assert forall|c: CircleId| bytes@ == #[trigger] audience_text(
                        RemoteAudience::Circle(c),
                    ) implies map.contains_pair("circle"@, json_quoted(hex_text(c@)))
                        && map.len() == 1 by {
                        lemma_single_string_is_writable("circle"@, hex_text(c@));
                    }
                }
                if members.len() != 1 {
                    return None;
                }
                match read_string_member(&members, "circle") {
                    None => None,
                    Some(text) => match CircleId::parse(text.as_str()) {
                        None => None,
                        Some(circle) => {
                            assert forall|value: CircleId| #[trigger]
                                hex_text(value@) == text@ implies value == circle by {
                                lemma_hex_text_injective(value@, circle@);
                                CircleId::lemma_bytes_determine(value, circle);
                            }
                            proof {
                                let chosen = choose|c: CircleId| hex_text(c@) == text@;
                                assert(hex_text(chosen@) == text@);
                            }
                            Some(RemoteAudience::Circle(circle))
                        },
                    },
                }
            },
        },
    }
}

fn read_scope(bytes: &Vec<u8>) -> (scope: Option<BlobScope>)
    ensures
        match scope {
            Some(s) => scope_of(bytes@) == Some(s@),
            None => scope_of(bytes@) is None,
        },
        forall|value: Option<Seq<char>>|
            bytes@ == #[trigger] scope_text(value) ==> scope is Some && scope->0@ == value,
{
    match read_string(bytes.as_slice()) {
        Ok(text) => {
            if same_text(text.as_str(), "Master") {
                Some(BlobScope::Master)
            } else {
                None
            }
        },
        Err(_) => match read_object(bytes.as_slice()) {
            Err(_) => {
                assert forall|name: Seq<char>| bytes@ != #[trigger] scope_text(Some(name)) by {
                    lemma_single_string_is_writable("Derived"@, name);
                }
                None
            },
            Ok(members) => {
                let ghost map = member_map(member_views(members@));
                proof {
                    lemma_member_map(member_views(members@), "Derived"@);
                    assert forall|name: Seq<char>| bytes@ == #[trigger] scope_text(
                        Some(name),
                    ) implies map.contains_pair("Derived"@, json_quoted(name)) && map.len()
                        == 1 by {
                        lemma_single_string_is_writable("Derived"@, name);
                    }
                }
                if members.len() != 1 {
                    return None;
                }
                match read_string_member(&members, "Derived") {
                    None => None,
                    Some(name) => Some(BlobScope::Derived(name)),
                }
            },
        },
    }
}

/// The member names differ from each other.
proof fn lemma_member_names_differ()
    ensures
        seq![
            "protection"@,
            "namespace"@,
            "blob_id"@,
            "uploader"@,
            "audience"@,
            "scope"@,
            "key_fingerprint"@,
            "semantic_key"@,
            "plaintext_size"@,
            "plaintext_hash"@,
            "cloud_path"@,
        ].no_duplicates(),
{
    reveal_strlit("protection");
    reveal_strlit("namespace");
    reveal_strlit("blob_id");
    reveal_strlit("uploader");
    reveal_strlit("audience");
    reveal_strlit("scope");
    reveal_strlit("key_fingerprint");
    reveal_strlit("semantic_key");
    reveal_strlit("plaintext_size");
    reveal_strlit("plaintext_hash");
    reveal_strlit("cloud_path");
    assert("protection"@[0] == 'p' && "cloud_path"@[0] == 'c');
    assert("uploader"@[0] == 'u' && "audience"@[0] == 'a');
    assert("plaintext_size"@[10] == 's' && "plaintext_hash"@[10] == 'h');
    let names = seq![
        "protection"@,
        "namespace"@,
        "blob_id"@,
        "uploader"@,
        "audience"@,
        "scope"@,
        "key_fingerprint"@,
        "semantic_key"@,
        "plaintext_size"@,
        "plaintext_hash"@,
        "cloud_path"@,
    ];
    let lengths = seq![10nat, 9, 7, 8, 8, 5, 15, 12, 14, 14, 10];
    assert forall|i: int| 0 <= i < names.len() implies (#[trigger] names[i]).len() == lengths[i] by {
    }
    assert forall|i: int, j: int|
        0 <= i < names.len() && 0 <= j < names.len() && i != j implies names[i] != names[j] by {
        if names[i] == names[j] {
            assert(lengths[i] == lengths[j]);
            assert(names[i][0] == names[j][0]);
            assert(names[i].len() == 14 ==> names[i][10] == names[j][10]);
        }
    }
}

/// The canonical members can be written and read back, and each stands under its name.
proof fn lemma_members_are_writable(locator: LocatorView)
    ensures
        writable(locator.members()),
        member_map(locator.members()).len() == locator.members().len(),
        forall|i: int|
            0 <= i < locator.members().len() ==> member_map(locator.members()).contains_pair(
                (#[trigger] locator.members()[i]).0,
                locator.members()[i].1,
            ),
{
    let members = locator.members();
    lemma_member_names_differ();
    let names = seq![
        "protection"@,
        "namespace"@,
        "blob_id"@,
        "uploader"@,
        "audience"@,
        "scope"@,
        "key_fingerprint"@,
        "semantic_key"@,
        "plaintext_size"@,
        "plaintext_hash"@,
        "cloud_path"@,
    ];
    match locator {
        LocatorView::Opaque { audience, scope, .. } => {
            assert forall|i: int| 0 <= i < members.len() implies (#[trigger] members[i]).0
                == names[i] by {}
            if let RemoteAudience::Circle(circle) = audience {
                let inner = seq![("circle"@, json_quoted(hex_text(circle@)))];
                lemma_single_string_is_writable("circle"@, hex_text(circle@));
                assert(is_leaf_text(inner[0].1));
                assert(is_value_text(object_text(inner)));
            } else {
                assert(is_leaf_text(audience_text(audience)));
            }
            if let Some(name) = scope {
                let inner = seq![("Derived"@, json_quoted(name))];
                lemma_single_string_is_writable("Derived"@, name);
                assert(is_leaf_text(inner[0].1));
                assert(is_value_text(object_text(inner)));
            } else {
                assert(is_leaf_text(scope_text(scope)));
            }
            assert forall|i: int| 0 <= i < members.len() implies is_value_text(
                (#[trigger] members[i]).1,
            ) by {
                if i != 4 && i != 5 {
                    assert(is_leaf_text(members[i].1));
                }
            }
        },
        LocatorView::Browsable { .. } => {
            let index = seq![0int, 1, 2, 3, 10, 7, 8, 9];
            assert forall|i: int| 0 <= i < members.len() implies (#[trigger] members[i]).0
                == names[index[i]] by {}
            assert forall|i: int| 0 <= i < members.len() implies is_value_text(
                (#[trigger] members[i]).1,
            ) by {
                assert(is_leaf_text(members[i].1));
            }
        },
    }
    assert(distinct_names(members));
    assert forall|i: int| 0 <= i < members.len() implies member_map(members).contains_pair(
        (#[trigger] members[i]).0,
        members[i].1,
    ) by {
        lemma_member_map(members, members[i].0);
    }
    lemma_member_map(members, members[0].0);
}

/// Every field of `locator` stands under its name in `map`, and nothing else does.
spec fn holds_fields(map: Map<Seq<char>, Seq<u8>>, locator: LocatorView) -> bool {
    match locator {
        LocatorView::Opaque {
            namespace,
            blob_id,
            uploader,
            audience,
            scope,
            key_fingerprint,
            semantic_key,
            plaintext_size,
            plaintext_hash,
        } => {
            &&& map.len() == 10
            &&& map.contains_pair("protection"@, json_quoted("opaque"@))
            &&& map.contains_pair("namespace"@, json_quoted(namespace))
            &&& map.contains_pair("blob_id"@, json_quoted(blob_id))
            &&& map.contains_pair("uploader"@, json_quoted(uploader))
            &&& map.contains_pair("audience"@, audience_text(audience))
            &&& map.contains_pair("scope"@, scope_text(scope))
            &&& map.contains_pair("key_fingerprint"@, json_quoted(hex_text(key_fingerprint@)))
            &&& map.contains_pair("semantic_key"@, json_quoted(semantic_key))
            &&& map.contains_pair("plaintext_size"@, number_text(plaintext_size))
            &&& map.contains_pair("plaintext_hash"@, json_quoted(hex_text(plaintext_hash@)))
        },
        LocatorView::Browsable {
            namespace,
            blob_id,
            uploader,
            cloud_path,
            semantic_key,
            plaintext_size,
            plaintext_hash,
        } => {
            &&& map.len() == 8
            &&& map.contains_pair("protection"@, json_quoted("browsable"@))
            &&& map.contains_pair("namespace"@, json_quoted(namespace))
            &&& map.contains_pair("blob_id"@, json_quoted(blob_id))
            &&& map.contains_pair("uploader"@, json_quoted(uploader))
            &&& map.contains_pair("cloud_path"@, json_quoted(cloud_path))
            &&& map.contains_pair("semantic_key"@, json_quoted(semantic_key))
            &&& map.contains_pair("plaintext_size"@, number_text(plaintext_size))
            &&& map.contains_pair("plaintext_hash"@, json_quoted(hex_text(plaintext_hash@)))
        },
    }
}

proof fn lemma_members_hold_fields(locator: LocatorView)
    ensures
        holds_fields(member_map(locator.members()), locator),
{
    lemma_members_are_writable(locator);
    let members = locator.members();
    assert(members[0].0 == "protection"@ && members[1].0 == "namespace"@ && members[2].0
        == "blob_id"@ && members[3].0 == "uploader"@);
    if locator is Opaque {
        assert(members[4].0 == "audience"@ && members[5].0 == "scope"@ && members[6].0
            == "key_fingerprint"@ && members[7].0 == "semantic_key"@);
        assert(members[8].0 == "plaintext_size"@ && members[9].0 == "plaintext_hash"@);
    } else {
        assert(members[4].0 == "cloud_path"@ && members[5].0 == "semantic_key"@ && members[6].0
            == "plaintext_size"@ && members[7].0 == "plaintext_hash"@);
    }
}

fn read_locator(members: &Vec<(String, Vec<u8>)>) -> (locator: Option<BlobLocator>)
    requires
        distinct_names(member_views(members@)),
    ensures
        match locator {
            Some(l) => locator_of(member_map(member_views(members@))) == Some(l@),
            None => locator_of(member_map(member_views(members@))) is None,
        },
        forall|l: LocatorView|
            member_map(member_views(members@)) == member_map(#[trigger] l.members())
                ==> locator is Some && locator->0@ == l,
{
    let ghost map = member_map(member_views(members@));
    proof {
        lemma_member_map(member_views(members@), ""@);
        reveal_strlit("opaque");
        reveal_strlit("browsable");
        assert("opaque"@.len() != "browsable"@.len());
        assert forall|l: LocatorView|
            map == member_map(#[trigger] l.members()) implies holds_fields(map, l) by {
            lemma_members_hold_fields(l);
        }
    }
    let tag = read_string_member(members, "protection");
    let namespace = read_string_member(members, "namespace");
    let blob_id = read_string_member(members, "blob_id");
    let uploader = read_string_member(members, "uploader");
    let semantic_key = read_string_member(members, "semantic_key");
    let plaintext_size = read_number_member(members, "plaintext_size");
    let plaintext_hash = read_hash_member(members, "plaintext_hash");
    proof {
        assert forall|l: LocatorView| map == member_map(#[trigger] l.members()) implies {
            &&& tag is Some && tag->0@ == (if l is Opaque { "opaque"@ } else { "browsable"@ })
            &&& namespace is Some && namespace->0@ == l.namespace()
            &&& blob_id is Some && blob_id->0@ == l.blob_id()
            &&& uploader is Some && uploader->0@ == l.uploader()
            &&& semantic_key is Some && semantic_key->0@ == l.key()
            &&& plaintext_size == Some(l.plaintext_size())
            &&& plaintext_hash == Some(l.plaintext_hash())
        } by {
            assert(holds_fields(map, l));
        }
    }
    match (tag, namespace, blob_id, uploader, semantic_key, plaintext_size, plaintext_hash) {
        (
            Some(tag),
            Some(namespace),
            Some(blob_id),
            Some(uploader),
            Some(semantic_key),
            Some(plaintext_size),
            Some(plaintext_hash),
        ) => {
            if same_text(tag.as_str(), "opaque") {
                let fingerprint = read_fingerprint_member(members, "key_fingerprint");
                assert forall|l: LocatorView| map == member_map(#[trigger] l.members()) implies {
                    &&& l is Opaque
                    &&& map.len() == 10
                    &&& fingerprint == Some(l->key_fingerprint)
                    &&& map.contains_pair("audience"@, audience_text(l->audience))
                    &&& map.contains_pair("scope"@, scope_text(l->scope))
                } by {
                    assert(holds_fields(map, l));
                }
                match (member(members, "audience"), member(members, "scope"), fingerprint) {
                    (Some(audience), Some(scope), Some(key_fingerprint)) => {
                        match (read_audience(audience), read_scope(scope)) {
                            (Some(audience), Some(scope)) => {
                                if members.len() != 10 {
                                    return None;
                                }
                                Some(
                                    BlobLocator::Opaque {
                                        namespace,
                                        blob_id,
                                        uploader,
                                        audience,
                                        scope,
                                        key_fingerprint,
                                        semantic_key,
                                        plaintext_size,
                                        plaintext_hash,
                                    },
                                )
                            },
                            _ => None,
                        }
                    },
                    _ => None,
                }
            } else if same_text(tag.as_str(), "browsable") {
                let cloud_path = read_string_member(members, "cloud_path");
                assert forall|l: LocatorView| map == member_map(#[trigger] l.members()) implies {
                    &&& l is Browsable
                    &&& map.len() == 8
                    &&& cloud_path is Some && cloud_path->0@ == l->cloud_path
                } by {
                    assert(holds_fields(map, l));
                }
                match cloud_path {
                    None => None,
                    Some(cloud_path) => {
                        if members.len() != 8 {
                            return None;
                        }
                        Some(
                            BlobLocator::Browsable {
                                namespace,
                                blob_id,
                                uploader,
                                cloud_path,
                                semantic_key,
                                plaintext_size,
                                plaintext_hash,
                            },
                        )
                    },
                }
            } else {
                None
            }
        },
        _ => None,
    }
}

impl BlobLocator {
    /// Accepts a decoded locator where it is sound and `bytes` are its canonical bytes.
    pub fn accept(self, bytes: &[u8]) -> (accepted: Result<BlobLocator, BlobLocatorError>)
        ensures
            match accepted_locator(self@, bytes@) {
                Ok(locator) => accepted matches Ok(l) && l@ == locator,
                Err(fault) => accepted matches Err(error) && error@ == fault,
            },
    {
        match self.validate() {
            Err(error) => return Err(error),
            Ok(()) => {},
        }
        if !same_bytes(self.to_bytes().as_slice(), bytes) {
            return Err(BlobLocatorError::NonCanonicalEncoding);
        }
        Ok(self)
    }

    /// Reads canonical locator bytes. Every sound locator is read back from its own
    /// canonical bytes, and no other bytes are accepted for it. A text that is JSON but no
    /// locator is malformed for a fixed reason, which does not say what member is at fault.
    pub fn parse(bytes: &[u8]) -> (parsed: Result<BlobLocator, BlobLocatorError>)
        ensures
            match parsed_locator(bytes@) {
                Ok(locator) => parsed matches Ok(l) && l@ == locator,
                Err(fault) => parsed matches Err(error) && error@ == fault,
            },
            forall|l: LocatorView|
                l.fault() is None && bytes@ == #[trigger] l.canonical() ==> parsed is Ok
                    && parsed->Ok_0@ == l,
            parsed matches Ok(l) ==> l@.fault() is None && bytes@ == l@.canonical(),
    {
        match read_object(bytes) {
            Err(reason) => {
                assert forall|l: LocatorView| bytes@ != #[trigger] l.canonical() by {
                    lemma_members_are_writable(l);
                }
                Err(BlobLocatorError::Malformed(reason))
            },
            Ok(members) => {
                assert forall|l: LocatorView| bytes@ == #[trigger] l.canonical() implies member_map(
                    member_views(members@),
                ) == member_map(l.members()) by {
                    lemma_members_are_writable(l);
                }
                match read_locator(&members) {
                    None => Err(
                        BlobLocatorError::Malformed("blob locator has an unknown shape".to_owned()),
                    ),
                    Some(locator) => if !same_bytes(locator.to_bytes().as_slice(), bytes)
                        && finds_double(bytes, &members) {
                        Err(
                            BlobLocatorError::Malformed(
                                "blob locator writes a member twice".to_owned(),
                            ),
                        )
                    } else {
                        locator.accept(bytes)
                    },
                }
            },
        }
    }
}

impl BlobLocator {
    /// Whether two locators say the same.
    pub fn same(&self, other: &BlobLocator) -> (same: bool)
        ensures
            same == (self@ == other@),
    {
        match (self, other) {
            (
                BlobLocator::Opaque {
                    namespace: an,
                    blob_id: ab,
                    uploader: au,
                    audience: aa,
                    scope: asc,
                    key_fingerprint: ak,
                    semantic_key: akey,
                    plaintext_size: asize,
                    plaintext_hash: ahash,
                },
                BlobLocator::Opaque {
                    namespace: bn,
                    blob_id: bb,
                    uploader: bu,
                    audience: ba,
                    scope: bsc,
                    key_fingerprint: bk,
                    semantic_key: bkey,
                    plaintext_size: bsize,
                    plaintext_hash: bhash,
                },
            ) => *an == *bn && *ab == *bb && *au == *bu && aa.same(ba) && asc.same(bsc) && ak.same(
                bk,
            ) && *akey == *bkey && *asize == *bsize && ahash.same(bhash),
            (
                BlobLocator::Browsable {
                    namespace: an,
                    blob_id: ab,
                    uploader: au,
                    cloud_path: ap,
                    semantic_key: akey,
                    plaintext_size: asize,
                    plaintext_hash: ahash,
                },
                BlobLocator::Browsable {
                    namespace: bn,
                    blob_id: bb,
                    uploader: bu,
                    cloud_path: bp,
                    semantic_key: bkey,
                    plaintext_size: bsize,
                    plaintext_hash: bhash,
                },
            ) => *an == *bn && *ab == *bb && *au == *bu && *ap == *bp && *akey == *bkey && *asize
                == *bsize && ahash.same(bhash),
            _ => false,
        }
    }
}

/// One immutable object of the cloud provider.
#[derive(Debug, PartialEq, Eq)]
pub struct ExactObjectRef {
    /// The reusable key the object was written under.
    pub logical_key: String,
    /// The stored length, sealing included.
    pub stored_size: u64,
    /// The identity of this very object, which no other upload shares.
    pub object_id: ObjectHash,
}

/// What an [`ExactObjectRef`] says.
pub ghost struct ObjectView {
    pub logical_key: Seq<char>,
    pub stored_size: u64,
    pub object_id: ObjectHash,
}

impl View for ExactObjectRef {
    type V = ObjectView;

    open spec fn view(&self) -> ObjectView {
        ObjectView {
            logical_key: self.logical_key@,
            stored_size: self.stored_size,
            object_id: self.object_id,
        }
    }
}

impl Clone for ExactObjectRef {
    fn clone(&self) -> (copy: ExactObjectRef)
        ensures
            copy == *self,
    {
        ExactObjectRef {
            logical_key: self.logical_key.clone(),
            stored_size: self.stored_size,
            object_id: self.object_id,
        }
    }
}

/// A blob as it is stored: what it is, and which provider object holds it.
#[derive(Debug, PartialEq, Eq)]
pub struct StoredBlobRef {
    /// What the blob is.
    pub locator: BlobLocator,
    /// The object that holds it.
    pub object: ExactObjectRef,
}

/// What a [`StoredBlobRef`] says.
pub ghost struct StoredView {
    pub locator: LocatorView,
    pub object: ObjectView,
}

impl View for StoredBlobRef {
    type V = StoredView;

    open spec fn view(&self) -> StoredView {
        StoredView { locator: self.locator@, object: self.object@ }
    }
}

impl Clone for StoredBlobRef {
    fn clone(&self) -> (copy: StoredBlobRef)
        ensures
            copy == *self,
    {
        StoredBlobRef { locator: self.locator.clone(), object: self.object.clone() }
    }
}

impl ObjectView {
    /// The members of an object reference's JSON object, in their order.
    pub open spec fn members(self) -> Seq<(Seq<char>, Seq<u8>)> {
        seq![
            ("logical_key"@, json_quoted(self.logical_key)),
            ("stored_size"@, number_text(self.stored_size)),
            ("object_id"@, json_quoted(hex_text(self.object_id@))),
        ]
    }
}

impl StoredView {
    /// The members of a stored reference's JSON object, in their order.
    pub open spec fn members(self) -> Seq<(Seq<char>, Seq<u8>)> {
        seq![
            ("locator"@, self.locator.canonical()),
            ("object"@, object_text(self.object.members())),
        ]
    }

    /// The JSON text of a stored reference.
    pub open spec fn json(self) -> Seq<u8> {
        object_text(self.members())
    }
}

proof fn lemma_stored_apart(stored: StoredView, other: StoredView)
    requires
        forall|l: LocatorView|
            l != stored.locator ==> differ(stored.locator.canonical(), #[trigger] l.canonical()),
        quotes_apart(stored.object.logical_key),
        quotes_apart(hex_text(stored.object.object_id@)),
        other != stored,
    ensures
        differ(stored.json(), other.json()),
{
    let (x, y) = (stored.object.members(), other.object.members());
    lemma_numbers_apart(stored.object.stored_size, other.object.stored_size);
    law_object_hash_text_round_trip(stored.object.object_id);
    assert(alike(x, y));
    lemma_objects_apart(x, y);
    if x == y {
        assert(x[0].1 == y[0].1 && x[1].1 == y[1].1 && x[2].1 == y[2].1);
    }
    let (a, b) = (stored.members(), other.members());
    assert(a[0].1 == stored.locator.canonical() && b[0].1 == other.locator.canonical());
    assert(alike(a, b));
    lemma_objects_apart(a, b);
    if a == b {
        assert(a[0].1 == b[0].1 && a[1].1 == b[1].1);
    }
}

impl StoredBlobRef {
    /// Whether two references say the same.
    pub fn same(&self, other: &StoredBlobRef) -> (same: bool)
        ensures
            same == (self@ == other@),
    {
        self.locator.same(&other.locator) && self.object.logical_key == other.object.logical_key
            && self.object.stored_size == other.object.stored_size && self.object.object_id.same(
            &other.object.object_id,
        )
    }

    /// The JSON text of the reference. No other reference's text is this one or begins
    /// with it.
    pub fn to_json(&self) -> (bytes: Vec<u8>)
        ensures
            bytes@ == self@.json(),
            forall|other: StoredView| other != self@ ==> differ(bytes@, #[trigger] other.json()),
    {
        let mut object: Vec<(String, Vec<u8>)> = Vec::new();
        object.push(("logical_key".to_owned(), quote(self.object.logical_key.as_str())));
        object.push(("stored_size".to_owned(), write_number(self.object.stored_size)));
        object.push(("object_id".to_owned(), quote(self.object.object_id.to_text().as_str())));
        assert(member_views(object@) =~= self@.object.members());
        let mut members: Vec<(String, Vec<u8>)> = Vec::new();
        members.push(("locator".to_owned(), self.locator.to_bytes()));
        members.push(("object".to_owned(), write_object(&object)));
        assert(member_views(members@) =~= self@.members());
        assert forall|other: StoredView| other != self@ implies differ(
            self@.json(),
            #[trigger] other.json(),
        ) by {
            lemma_stored_apart(self@, other);
        }
        write_object(&members)
    }
}

} // verus!
