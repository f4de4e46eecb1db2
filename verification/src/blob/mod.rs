//! The blob engine: the single owner of a blob's whole durability lifecycle.
//!
//! A blob is opaque bytes that a database row refers to. It has two declared
//! properties, [`Provenance`] (where its bytes live while it is local) and
//! [`CacheFill`] (how a device gets them once it is remote), and one state, its
//! locality, which the transitions flip:
//!
//! - [`cache`] serves remote blobs from copies on this device, kept or evictable;
//! - [`local_files`] is the home of a host-provided blob while it is local;
//! - [`upload`] drains the durable upload queue;
//! - [`delete`] turns a queued deletion into a signed tombstone and reclaims the blob
//!   once a convergence grace has passed;
//! - [`transition`] moves a whole root between local and remote;
//! - [`local_cleanup`] deletes obsolete copies on this device;
//! - [`decl`] derives the blobs that rows refer to from per-table declarations.
//!
//! Each of them is a set of decisions: functions from what is known, and from what an
//! outside operation answered, to what is done next. The operations themselves (files,
//! cloud objects, the database) are performed by the caller. What whole runs of these
//! decisions come to is proved in the modules whose names end in `_laws`.

pub mod access;
pub mod access_laws;
pub mod cache;
pub mod cleanup_laws;
pub mod decl;
pub mod decl_laws;
pub mod delete;
pub mod drain_laws;
pub mod evict;
pub mod gc_laws;
pub mod local_cleanup;
pub mod local_files;
pub mod locator;
pub mod make_local;
pub mod make_local_laws;
pub mod make_remote_laws;
pub mod retry;
pub mod transition;
pub mod upload;
pub mod upload_laws;
pub mod upload_queue;

use vstd::prelude::*;
use vstd::string::*;

use crate::digest::{absorbed, all_hex_chars, hex_encode, hex_text, is_hex_text, lemma_hex_text_is_hex, sha256, sha256_digest, sha256_finalize, sha256_new, sha256_update};
use crate::hlc::{is_timestamp, timestamp_is_well_formed};
use crate::json::{distinct_names, is_leaf_text, is_value_text, json_members, json_quoted, lemma_member_map, member_map, member_views, object_text, quote, read_object, read_string_member, string_member, writable, write_object};
use crate::store_dir::{is_forbidden_char, token_fault, validate_path_token};
use crate::text::{chars_of, same_text, text_of};

verus! {

/// Where one version of a blob was written in the cloud.
#[derive(Debug, PartialEq, Eq)]
pub struct CloudBlobLocation {
    /// Who wrote it.
    pub uploader: String,
    /// The fixed-size object token of this version.
    pub generation: String,
    /// Causal order of this location assignment, separate from the object token so that
    /// arbitration between locations never decodes a path.
    pub version: String,
}

impl Clone for CloudBlobLocation {
    fn clone(&self) -> (copy: CloudBlobLocation)
        ensures
            copy == *self,
    {
        CloudBlobLocation {
            uploader: self.uploader.clone(),
            generation: self.generation.clone(),
            version: self.version.clone(),
        }
    }
}

/// Why a location is refused, or `None` where it is sound.
pub open spec fn location_fault(
    uploader: Seq<char>,
    generation: Seq<char>,
    version: Seq<char>,
) -> Option<Seq<char>> {
    if let Some(fault) = token_fault(uploader) {
        Some(fault.message_text())
    } else if let Some(fault) = token_fault(generation) {
        Some(fault.message_text())
    } else if !(generation.len() == 64 && is_hex_text(generation)) {
        Some("blob generation must be exactly 64 lowercase hexadecimal characters"@)
    } else if !is_timestamp(version) {
        Some("blob location version must be an HLC timestamp"@)
    } else {
        None
    }
}

impl CloudBlobLocation {
    /// The location `uploader` assigns at `stamp`: its object token is the digest of the
    /// stamp, so it has the same length whatever the stamp holds.
    pub fn generated(uploader: String, stamp: &str) -> (location: CloudBlobLocation)
        ensures
            location.uploader@ == uploader@,
            location.generation@ == hex_text(sha256(stamp.spec_bytes())),
            location.version@ == stamp@,
            location.generation@.len() == 64,
            token_fault(uploader@) is None && is_timestamp(stamp@) ==> location_fault(
                location.uploader@,
                location.generation@,
                location.version@,
            ) is None,
    {
        let digest: [u8; 32] = sha256_digest(stamp.as_bytes());
        proof {
            lemma_generated_is_valid(uploader@, stamp@, digest@);
        }
        CloudBlobLocation {
            uploader,
            generation: hex_encode(digest.as_slice()),
            version: stamp.to_owned(),
        }
    }

    /// Checks that every field has its shape: the uploader is a path token, the object
    /// token is 64 lowercase hexadecimal digits and the version is a clock stamp.
    pub fn validate(&self) -> (checked: Result<(), String>)
        ensures
            match location_fault(self.uploader@, self.generation@, self.version@) {
                Some(reason) => checked matches Err(text) && text@ == reason,
                None => checked is Ok,
            },
    {
        match validate_path_token(self.uploader.as_str()) {
            Err(fault) => return Err(fault.message()),
            Ok(()) => {},
        }
        match validate_path_token(self.generation.as_str()) {
            Err(fault) => return Err(fault.message()),
            Ok(()) => {},
        }
        let chars: Vec<char> = chars_of(self.generation.as_str());
        if chars.len() != 64 || !all_hex_chars(chars.as_slice()) {
            return Err(
                "blob generation must be exactly 64 lowercase hexadecimal characters".to_owned(),
            );
        }
        if !timestamp_is_well_formed(self.version.as_str()) {
            return Err("blob location version must be an HLC timestamp".to_owned());
        }
        Ok(())
    }
}

/// The members of a location's JSON text.
pub open spec fn location_members(
    uploader: Seq<char>,
    generation: Seq<char>,
    version: Seq<char>,
) -> Seq<(Seq<char>, Seq<u8>)> {
    seq![
        ("uploader"@, json_quoted(uploader)),
        ("generation"@, json_quoted(generation)),
        ("version"@, json_quoted(version)),
    ]
}

/// The uploader, the object token and the version that a JSON text holds: each of them must
/// be there, and be a string.
pub open spec fn location_of(bytes: Seq<u8>) -> Option<(Seq<char>, Seq<char>, Seq<char>)> {
    match json_members(bytes) {
        Err(_) => None,
        Ok(members) => match (
            string_member(members, "uploader"@),
            string_member(members, "generation"@),
            string_member(members, "version"@),
        ) {
            (Some(uploader), Some(generation), Some(version)) => Some(
                (uploader, generation, version),
            ),
            _ => None,
        },
    }
}

proof fn lemma_location_members(uploader: Seq<char>, generation: Seq<char>, version: Seq<char>)
    ensures
        writable(location_members(uploader, generation, version)),
        member_map(location_members(uploader, generation, version)).contains_pair(
            "uploader"@,
            json_quoted(uploader),
        ),
        member_map(location_members(uploader, generation, version)).contains_pair(
            "generation"@,
            json_quoted(generation),
        ),
        member_map(location_members(uploader, generation, version)).contains_pair(
            "version"@,
            json_quoted(version),
        ),
{
    reveal_strlit("uploader");
    reveal_strlit("generation");
    reveal_strlit("version");
    let members = location_members(uploader, generation, version);
    assert(members[0].0.len() == 8 && members[1].0.len() == 10 && members[2].0.len() == 7);
    assert(distinct_names(members));
    assert(is_leaf_text(members[0].1) && is_leaf_text(members[1].1) && is_leaf_text(members[2].1));
    assert(is_value_text(members[0].1) && is_value_text(members[1].1) && is_value_text(
        members[2].1,
    ));
    lemma_member_map(members, "uploader"@);
    lemma_member_map(members, "generation"@);
    lemma_member_map(members, "version"@);
}

impl CloudBlobLocation {
    /// The JSON text of the location.
    pub fn to_json(&self) -> (bytes: Vec<u8>)
        ensures
            bytes@ == object_text(
                location_members(self.uploader@, self.generation@, self.version@),
            ),
    {
        let mut members: Vec<(String, Vec<u8>)> = Vec::new();
        members.push(("uploader".to_owned(), quote(self.uploader.as_str())));
        members.push(("generation".to_owned(), quote(self.generation.as_str())));
        members.push(("version".to_owned(), quote(self.version.as_str())));
        assert(member_views(members@) =~= location_members(
            self.uploader@,
            self.generation@,
            self.version@,
        ));
        write_object(&members)
    }

    /// Reads a location from its JSON text. A text without one of the members is refused;
    /// one that a location was written to gives that location back.
    pub fn from_json(bytes: &[u8]) -> (location: Option<CloudBlobLocation>)
        ensures
            match location {
                Some(l) => location_of(bytes@) == Some((l.uploader@, l.generation@, l.version@)),
                None => location_of(bytes@) is None,
            },
            forall|uploader: Seq<char>, generation: Seq<char>, version: Seq<char>|
                bytes@ == object_text(#[trigger] location_members(uploader, generation, version))
                    ==> location is Some && location->0.uploader@ == uploader
                    && location->0.generation@ == generation && location->0.version@ == version,
    {
        let read = read_object(bytes);
        proof {
            assert forall|uploader: Seq<char>, generation: Seq<char>, version: Seq<char>|
                bytes@ == object_text(
                    #[trigger] location_members(uploader, generation, version),
                ) implies read is Ok && member_map(member_views(read->Ok_0@)) == member_map(
                location_members(uploader, generation, version),
            ) && member_map(location_members(uploader, generation, version)).contains_pair(
                "uploader"@,
                json_quoted(uploader),
            ) && member_map(location_members(uploader, generation, version)).contains_pair(
                "generation"@,
                json_quoted(generation),
            ) && member_map(location_members(uploader, generation, version)).contains_pair(
                "version"@,
                json_quoted(version),
            ) by {
                lemma_location_members(uploader, generation, version);
            }
        }
        match read {
            Err(_) => None,
            Ok(members) => {
                let uploader = read_string_member(&members, "uploader");
                let generation = read_string_member(&members, "generation");
                let version = read_string_member(&members, "version");
                match (uploader, generation, version) {
                    (Some(uploader), Some(generation), Some(version)) => Some(
                        CloudBlobLocation { uploader, generation, version },
                    ),
                    _ => None,
                }
            },
        }
    }
}

proof fn lemma_generated_is_valid(uploader: Seq<char>, stamp: Seq<char>, digest: Seq<u8>)
    requires
        digest.len() == 32,
    ensures
        hex_text(digest).len() == 64,
        token_fault(uploader) is None && is_timestamp(stamp) ==> location_fault(
            uploader,
            hex_text(digest),
            stamp,
        ) is None,
{
    let generation = hex_text(digest);
    lemma_hex_text_is_hex(digest);
    assert(generation.len() == 64);
    assert(generation != seq!['.'] && generation != seq!['.', '.']) by {
        assert(seq!['.'].len() == 1 && seq!['.', '.'].len() == 2);
    }
    assert(forall|i: int|
        0 <= i < generation.len() ==> !is_forbidden_char(#[trigger] generation[i])) by {
        assert forall|i: int| 0 <= i < generation.len() implies !is_forbidden_char(
            #[trigger] generation[i],
        ) by {
            assert(crate::digest::is_hex_char(generation[i]));
        }
    }
}

/// The content hash that a blob-bearing row carries: the lowercase hexadecimal SHA-256
/// of the blob's plaintext.
pub fn content_hash(plaintext: &[u8]) -> (hash: String)
    ensures
        hash@ == hex_text(sha256(plaintext@)),
{
    let digest: [u8; 32] = sha256_digest(plaintext);
    hex_encode(digest.as_slice())
}

/// A running content hash, so that a large blob is verified without ever being held
/// whole. Its view is everything it has been fed.
pub struct ContentHasher {
    hasher: sha2::Sha256,
}

impl View for ContentHasher {
    type V = Seq<u8>;

    closed spec fn view(&self) -> Seq<u8> {
        absorbed(self.hasher)
    }
}

impl ContentHasher {
    /// A hasher that has been fed nothing.
    pub fn new() -> (hasher: ContentHasher)
        ensures
            hasher@ == Seq::<u8>::empty(),
    {
        ContentHasher { hasher: sha256_new() }
    }

    /// Folds the next plaintext chunk into the running digest.
    pub fn update(&mut self, chunk: &[u8])
        ensures
            final(self)@ == old(self)@ + chunk@,
    {
        sha256_update(&mut self.hasher, chunk);
    }

    /// The lowercase hexadecimal digest of everything fed so far: what
    /// [`content_hash`] gives for the same bytes at once.
    pub fn finish(self) -> (hash: String)
        ensures
            hash@ == hex_text(sha256(self@)),
    {
        let digest: [u8; 32] = sha256_finalize(self.hasher);
        hex_encode(digest.as_slice())
    }
}

/// What a hasher has been fed once these chunks went behind what it was fed before.
pub open spec fn fed(before: Seq<u8>, chunks: Seq<Seq<u8>>) -> Seq<u8>
    decreases chunks.len(),
{
    if chunks.len() == 0 {
        before
    } else {
        fed(before + chunks[0], chunks.skip(1))
    }
}

proof fn lemma_fed_goes_behind(before: Seq<u8>, chunks: Seq<Seq<u8>>)
    ensures
        fed(before, chunks) == before + chunks.flatten(),
    decreases chunks.len(),
{
    if chunks.len() == 0 {
        assert(before + chunks.flatten() =~= before);
    } else {
        lemma_fed_goes_behind(before + chunks[0], chunks.skip(1));
        assert(chunks.drop_first() =~= chunks.skip(1));
        assert(before + chunks[0] + chunks.skip(1).flatten() =~= before + (chunks[0]
            + chunks.skip(1).flatten()));
    }
}

/// How bytes are cut into chunks does not matter: a fresh hasher that is fed the chunks one
/// by one gives the content hash of all of them joined.
pub proof fn law_hashing_in_chunks_is_hashing_the_whole(chunks: Seq<Seq<u8>>)
    ensures
        hex_text(sha256(fed(Seq::empty(), chunks))) == hex_text(sha256(chunks.flatten())),
        fed(Seq::empty(), chunks) == chunks.flatten(),
{
    lemma_fed_goes_behind(Seq::empty(), chunks);
    assert(Seq::<u8>::empty() + chunks.flatten() =~= chunks.flatten());
}

impl Default for ContentHasher {
    fn default() -> (hasher: ContentHasher)
        ensures
            hasher@ == Seq::<u8>::empty(),
    {
        ContentHasher::new()
    }
}

/// How many transfers a loop runs at once: never zero, so a loop always makes progress.
#[derive(Debug, Clone, Copy, PartialEq, Eq)]
pub struct TransferLimit {
    value: usize,
}

impl TransferLimit {
    #[verifier::type_invariant]
    closed spec fn nonzero(self) -> bool {
        self.value > 0
    }

    /// The number of transfers.
    pub closed spec fn count(self) -> nat {
        self.value as nat
    }

    /// The limit of `value` transfers, or `None` for zero.
    pub fn new(value: usize) -> (limit: Option<TransferLimit>)
        ensures
            limit is Some <==> value > 0,
            limit matches Some(l) ==> l.count() == value,
    {
        if value == 0 {
            None
        } else {
            Some(TransferLimit { value })
        }
    }

    /// The number of transfers, at least one.
    pub fn get(&self) -> (value: usize)
        ensures
            value == self.count(),
            value > 0,
    {
        proof {
            use_type_invariant(self);
        }
        self.value
    }
}

/// How many blob transfers run at once in each of the two transfer loops.
#[derive(Debug, Clone, Copy, PartialEq, Eq)]
pub struct TransferLimits {
    /// Uploads in one pass of the upload drain.
    pub uploads: TransferLimit,
    /// Fetches in one pin call.
    pub downloads: TransferLimit,
}

impl TransferLimits {
    /// One transfer at a time in each loop.
    pub fn serial() -> (limits: TransferLimits)
        ensures
            limits.uploads.count() == 1,
            limits.downloads.count() == 1,
    {
        TransferLimits { uploads: TransferLimit { value: 1 }, downloads: TransferLimit { value: 1 } }
    }
}

/// Which key encrypts a blob: the store's master key, or one derived from it.
#[derive(Debug, PartialEq, Eq)]
pub enum BlobScope {
    /// The store master key: every member reads the blob.
    Master,
    /// A key derived from the master key for this scope name.
    Derived(String),
}

impl Clone for BlobScope {
    fn clone(&self) -> (copy: BlobScope)
        ensures
            copy == *self,
    {
        match self {
            BlobScope::Master => BlobScope::Master,
            BlobScope::Derived(name) => BlobScope::Derived(name.clone()),
        }
    }
}

impl View for BlobScope {
    type V = Option<Seq<char>>;

    open spec fn view(&self) -> Option<Seq<char>> {
        match self {
            BlobScope::Master => None,
            BlobScope::Derived(name) => Some(name@),
        }
    }
}

/// The outbox column text of a scope.
pub open spec fn outbox_scope_text(scope: Option<Seq<char>>) -> Seq<char> {
    match scope {
        None => "master"@,
        Some(name) => "derived:"@ + name,
    }
}

/// What an outbox column text names: a scope, or nothing where the tag is unknown.
pub open spec fn outbox_scope(text: Seq<char>) -> Option<Option<Seq<char>>> {
    if text == "master"@ {
        Some(None)
    } else if "derived:"@.is_prefix_of(text) {
        Some(Some(text.skip("derived:"@.len() as int)))
    } else {
        None
    }
}

impl BlobScope {
    /// Whether two scopes name the same key.
    pub fn same(&self, other: &BlobScope) -> (same: bool)
        ensures
            same == (self@ == other@),
    {
        match (self, other) {
            (BlobScope::Master, BlobScope::Master) => true,
            (BlobScope::Derived(a), BlobScope::Derived(b)) => *a == *b,
            _ => false,
        }
    }

    /// The text kept in the outbox. The tag ends at the first `:` and the scope name
    /// follows verbatim, so the name may itself hold a `:`.
    pub fn to_outbox_str(&self) -> (text: String)
        ensures
            text@ == outbox_scope_text(self@),
    {
        match self {
            BlobScope::Master => "master".to_owned(),
            BlobScope::Derived(name) => "derived:".to_owned().concat(name.as_str()),
        }
    }

    /// Reads a text that [`BlobScope::to_outbox_str`] wrote. An unknown tag is a corrupt
    /// row and gives `None`, never the master key.
    pub fn from_outbox_str(s: &str) -> (scope: Option<BlobScope>)
        ensures
            match outbox_scope(s@) {
                None => scope is None,
                Some(named) => scope matches Some(found) && found@ == named,
            },
    {
        if same_text(s, "master") {
            return Some(BlobScope::Master);
        }
        proof {
            reveal_strlit("derived:");
        }
        let chars: Vec<char> = chars_of(s);
        if chars.len() < 8 {
            return None;
        }
        let tag: String = text_of(vstd::slice::slice_subrange(chars.as_slice(), 0, 8));
        if !same_text(tag.as_str(), "derived:") {
            return None;
        }
        let name: String = text_of(
            vstd::slice::slice_subrange(chars.as_slice(), 8, chars.len()),
        );
        assert(s@.subrange(0, 8) =~= "derived:"@);
        assert("derived:"@.is_prefix_of(s@));
        assert(name@ =~= s@.skip(8));
        Some(BlobScope::Derived(name))
    }
}

/// Every scope survives the outbox: reading its text gives the scope back, whatever
/// characters its name holds.
pub proof fn law_outbox_scope_round_trip(scope: Option<Seq<char>>)
    ensures
        outbox_scope(outbox_scope_text(scope)) == Some(scope),
{
    reveal_strlit("master");
    reveal_strlit("derived:");
    if let Some(name) = scope {
        let text = "derived:"@ + name;
        assert(text[0] == 'd' && "master"@[0] == 'm');
        assert("derived:"@ =~= text.subrange(0, 8));
        assert(text.skip(8) =~= name);
    }
}

/// Where a blob's bytes live while it is local.
#[derive(Debug, Clone, Copy, PartialEq, Eq, Structural)]
pub enum Provenance {
    /// The user's own file at a path, which is referenced and not owned.
    UserProvided,
    /// Data handed over by the host and kept in the local store.
    HostProvided,
}

/// How a device gets a remote blob's bytes.
#[derive(Debug, Clone, Copy, PartialEq, Eq, Structural)]
pub enum CacheFill {
    /// Fetched into the cache with the row.
    CacheEager,
    /// Fetched into the cache on first read.
    CacheLazy,
}

/// A blob that a row refers to: its cloud identity, its encryption scope and its two
/// declared properties.
#[derive(Debug)]
pub struct BlobRef {
    /// The blob's category.
    pub namespace: String,
    /// The blob's id within its namespace.
    pub id: String,
    /// Which key encrypts it.
    pub scope: BlobScope,
    /// The readable path a browsable home stores it under.
    pub cloud_path: Option<String>,
    /// Where its bytes live while it is local.
    pub provenance: Provenance,
    /// How a device gets its bytes while it is remote.
    pub fill: CacheFill,
}

/// What a [`BlobRef`] says.
pub ghost struct BlobRefView {
    pub namespace: Seq<char>,
    pub id: Seq<char>,
    pub scope: Option<Seq<char>>,
    pub cloud_path: Option<Seq<char>>,
    pub provenance: Provenance,
    pub fill: CacheFill,
}

/// The characters of an optional text.
pub open spec fn optional_text(text: Option<String>) -> Option<Seq<char>> {
    match text {
        None => None,
        Some(t) => Some(t@),
    }
}

impl Clone for BlobRef {
    fn clone(&self) -> (copy: BlobRef)
        ensures
            copy == *self,
    {
        BlobRef {
            namespace: self.namespace.clone(),
            id: self.id.clone(),
            scope: self.scope.clone(),
            cloud_path: duplicate_text(&self.cloud_path),
            provenance: self.provenance,
            fill: self.fill,
        }
    }
}

impl View for BlobRef {
    type V = BlobRefView;

    open spec fn view(&self) -> BlobRefView {
        BlobRefView {
            namespace: self.namespace@,
            id: self.id@,
            scope: self.scope@,
            cloud_path: optional_text(self.cloud_path),
            provenance: self.provenance,
            fill: self.fill,
        }
    }
}

/// A copy of an optional text.
pub fn duplicate_text(text: &Option<String>) -> (copy: Option<String>)
    ensures
        copy == *text,
{
    match text {
        None => None,
        Some(t) => Some(t.clone()),
    }
}

/// Whether two optional texts are the same.
pub fn same_optional_text(a: &Option<String>, b: &Option<String>) -> (same: bool)
    ensures
        same == (optional_text(*a) == optional_text(*b)),
{
    match (a, b) {
        (None, None) => true,
        (Some(x), Some(y)) => *x == *y,
        _ => false,
    }
}

impl BlobRef {
    /// Whether two references say the same.
    pub fn same(&self, other: &BlobRef) -> (same: bool)
        ensures
            same == (self@ == other@),
    {
        self.namespace == other.namespace && self.id == other.id && self.scope.same(&other.scope)
            && same_optional_text(&self.cloud_path, &other.cloud_path) && self.provenance
            == other.provenance && self.fill == other.fill
    }
}

} // verus!
