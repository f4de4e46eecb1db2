//! Errors of the owned database, and the rules it enforces on the SQL and the snapshots
//! that reach it.

use std::collections::VecDeque;
use vstd::prelude::*;
use vstd::string::*;

use crate::digest::ObjectHash;
use crate::text::{chars_of, same_bytes, same_text};

verus! {

/// An error from the owned database.
#[derive(Debug)]
pub enum DbError {
    /// Anything that went wrong, in words.
    Message(String),
    /// The store's root hash is not recorded.
    StoreRootHashMissing,
}

/// What a [`DbError`] says.
pub ghost enum DbErrorView {
    Message(Seq<char>),
    StoreRootHashMissing,
}

impl View for DbError {
    type V = DbErrorView;

    open spec fn view(&self) -> DbErrorView {
        match self {
            DbError::Message(message) => DbErrorView::Message(message@),
            DbError::StoreRootHashMissing => DbErrorView::StoreRootHashMissing,
        }
    }
}

impl DbErrorView {
    /// The error's bare message.
    pub open spec fn bare_text(self) -> Seq<char> {
        match self {
            DbErrorView::Message(message) => message,
            DbErrorView::StoreRootHashMissing => "Store protocol root hash is absent"@,
        }
    }

    /// The error in words.
    pub open spec fn message_text(self) -> Seq<char> {
        "database error: "@ + self.bare_text()
    }
}

impl DbError {
    /// The error's bare message, without saying that the database gave it.
    pub fn into_message(self) -> (message: String)
        ensures
            message@ == self@.bare_text(),
    {
        match self {
            DbError::Message(message) => message,
            DbError::StoreRootHashMissing => "Store protocol root hash is absent".to_owned(),
        }
    }

    /// The error for a store whose root hash is not recorded.
    pub fn missing_store_root_hash() -> (error: DbError)
        ensures
            error is StoreRootHashMissing,
    {
        DbError::StoreRootHashMissing
    }

    /// The error in words.
    pub fn message(&self) -> (text: String)
        ensures
            text@ == self@.message_text(),
    {
        match self {
            DbError::Message(message) => "database error: ".to_owned().concat(message.as_str()),
            DbError::StoreRootHashMissing => "database error: ".to_owned().concat(
                "Store protocol root hash is absent",
            ),
        }
    }
}

/// Why the migrations of a database did not run.
#[derive(Debug)]
pub enum MigrationError {
    /// The database was written by a newer schema than this one; the app must be updated.
    SchemaTooNew(String),
    /// A migration failed, in words.
    Failed(String),
}

/// Why opening the database failed. A failure of the migrations is kept apart, so that a
/// host can tell a schema that is too new.
#[derive(Debug)]
pub enum OpenError {
    Migration(MigrationError),
    Db(DbError),
}

impl OpenError {
    /// The error in words: those of the failure it carries.
    pub open spec fn message_text(self) -> Seq<char> {
        match self {
            OpenError::Migration(MigrationError::SchemaTooNew(detail)) => detail@,
            OpenError::Migration(MigrationError::Failed(detail)) => detail@,
            OpenError::Db(error) => error@.message_text(),
        }
    }

    /// The error in words: those of the failure it carries.
    pub fn message(&self) -> (text: String)
        ensures
            text@ == self.message_text(),
    {
        match self {
            OpenError::Migration(MigrationError::SchemaTooNew(detail)) => detail.clone(),
            OpenError::Migration(MigrationError::Failed(detail)) => detail.clone(),
            OpenError::Db(error) => error.message(),
        }
    }
}

/// A character with an ASCII capital turned small.
pub open spec fn ascii_small(c: char) -> char {
    if 'A' <= c <= 'Z' {
        ((c as u8) + 32) as char
    } else {
        c
    }
}

/// Whether two texts are equal but for the case of ASCII letters.
pub open spec fn equal_ignoring_case(a: Seq<char>, b: Seq<char>) -> bool {
    a.len() == b.len() && forall|i: int|
        0 <= i < a.len() ==> ascii_small(#[trigger] a[i]) == ascii_small(b[i])
}

fn small(c: char) -> (lowered: char)
    ensures
        lowered == ascii_small(c),
{
    if 'A' <= c && c <= 'Z' {
        ((c as u8) + 32) as char
    } else {
        c
    }
}

fn same_ignoring_case(a: &str, b: &str) -> (same: bool)
    ensures
        same == equal_ignoring_case(a@, b@),
{
    let left: Vec<char> = chars_of(a);
    let right: Vec<char> = chars_of(b);
    if left.len() != right.len() {
        return false;
    }
    let mut i: usize = 0;
    while i < left.len()
        invariant
            left@ == a@,
            right@ == b@,
            left.len() == right.len(),
            i <= left.len(),
            forall|j: int| 0 <= j < i ==> ascii_small(#[trigger] left@[j]) == ascii_small(right@[j]),
        decreases left.len() - i,
    {
        if small(left[i]) != small(right[i]) {
            assert(ascii_small(a@[i as int]) != ascii_small(b@[i as int]));
            return false;
        }
        i = i + 1;
    }
    true
}

/// What a statement of the host's SQL does, as far as the rules on it ask.
#[derive(Debug)]
pub enum SqlAction {
    /// It detaches a database.
    Detach { database: String },
    /// It is a pragma.
    Pragma { name: String },
    /// Anything else.
    Other,
}

/// One access that the host's SQL asks for.
#[derive(Debug)]
pub struct SqlAccess {
    /// The database it is about, where it names one.
    pub database: Option<String>,
    /// What it does.
    pub action: SqlAction,
}

/// Whether an access of the host's SQL is allowed.
#[derive(Debug, Clone, Copy, PartialEq, Eq, Structural)]
pub enum SqlVerdict {
    Allow,
    Deny,
}

/// The name of the attached database that holds the empty baseline of the gates. The
/// host's SQL does not reach it.
pub open spec fn gate_baseline_name() -> Seq<char> {
    "coven_gate_empty"@
}

impl SqlAccess {
    /// Whether the access reaches the gates' baseline, or would show that it is attached.
    pub open spec fn touches_baseline(self) -> bool {
        ||| self.database matches Some(name) && equal_ignoring_case(name@, gate_baseline_name())
        ||| self.action matches SqlAction::Detach { database } && equal_ignoring_case(
            database@,
            gate_baseline_name(),
        )
        ||| self.action matches SqlAction::Pragma { name } && equal_ignoring_case(
            name@,
            "database_list"@,
        )
    }
}

/// Decides one access of the host's SQL: everything is allowed but what reaches the gates'
/// baseline database, detaches it, or lists the attached databases.
pub fn authorize_host_sql(access: &SqlAccess) -> (verdict: SqlVerdict)
    ensures
        verdict == if access.touches_baseline() {
            SqlVerdict::Deny
        } else {
            SqlVerdict::Allow
        },
{
    let names_it: bool = match &access.database {
        Some(name) => same_ignoring_case(name.as_str(), "coven_gate_empty"),
        None => false,
    };
    let acts_on_it: bool = match &access.action {
        SqlAction::Detach { database } => same_ignoring_case(database.as_str(), "coven_gate_empty"),
        SqlAction::Pragma { name } => same_ignoring_case(name.as_str(), "database_list"),
        SqlAction::Other => false,
    };
    if names_it || acts_on_it {
        SqlVerdict::Deny
    } else {
        SqlVerdict::Allow
    }
}

/// A point that an operation of the database reaches, at which its order with others can be
/// fixed.
#[derive(Debug)]
pub enum DatabaseTestPoint {
    LocalBlobCleanupRequested,
    LocalBlobCleanupAcquired,
    LocalBlobCleanupBeforeFilesystem { namespace: String, blob_id: String },
    LocalBlobCleanupFinished,
    PullAfterRemoteCommit { device_id: String, seq: u64 },
    StoreWriteCommitUploaded { write_id: String },
    StoreWriteHeadReadBack { write_id: String },
    StoreDeviceExclusionCandidateStaged,
    SerialStoreHeadActivated,
    SerialStoreMaterialized,
    SerialRemovalBeforeAdoption,
    SerialMembershipTerminalized,
}

/// What a [`DatabaseTestPoint`] says.
pub ghost enum PointView {
    LocalBlobCleanupRequested,
    LocalBlobCleanupAcquired,
    LocalBlobCleanupBeforeFilesystem { namespace: Seq<char>, blob_id: Seq<char> },
    LocalBlobCleanupFinished,
    PullAfterRemoteCommit { device_id: Seq<char>, seq: u64 },
    StoreWriteCommitUploaded { write_id: Seq<char> },
    StoreWriteHeadReadBack { write_id: Seq<char> },
    StoreDeviceExclusionCandidateStaged,
    SerialStoreHeadActivated,
    SerialStoreMaterialized,
    SerialRemovalBeforeAdoption,
    SerialMembershipTerminalized,
}

impl View for DatabaseTestPoint {
    type V = PointView;

    open spec fn view(&self) -> PointView {
        match self {
            DatabaseTestPoint::LocalBlobCleanupRequested => PointView::LocalBlobCleanupRequested,
            DatabaseTestPoint::LocalBlobCleanupAcquired => PointView::LocalBlobCleanupAcquired,
            DatabaseTestPoint::LocalBlobCleanupBeforeFilesystem { namespace, blob_id } =>
            PointView::LocalBlobCleanupBeforeFilesystem {
                namespace: namespace@,
                blob_id: blob_id@,
            },
            DatabaseTestPoint::LocalBlobCleanupFinished => PointView::LocalBlobCleanupFinished,
            DatabaseTestPoint::PullAfterRemoteCommit { device_id, seq } =>
            PointView::PullAfterRemoteCommit { device_id: device_id@, seq: *seq },
            DatabaseTestPoint::StoreWriteCommitUploaded { write_id } =>
            PointView::StoreWriteCommitUploaded { write_id: write_id@ },
            DatabaseTestPoint::StoreWriteHeadReadBack { write_id } =>
            PointView::StoreWriteHeadReadBack { write_id: write_id@ },
            DatabaseTestPoint::StoreDeviceExclusionCandidateStaged =>
            PointView::StoreDeviceExclusionCandidateStaged,
            DatabaseTestPoint::SerialStoreHeadActivated => PointView::SerialStoreHeadActivated,
            DatabaseTestPoint::SerialStoreMaterialized => PointView::SerialStoreMaterialized,
            DatabaseTestPoint::SerialRemovalBeforeAdoption => PointView::SerialRemovalBeforeAdoption,
            DatabaseTestPoint::SerialMembershipTerminalized => PointView::SerialMembershipTerminalized,
        }
    }
}

impl DatabaseTestPoint {
    /// Whether two points are the same.
    pub fn same(&self, other: &DatabaseTestPoint) -> (same: bool)
        ensures
            same == (self@ == other@),
    {
        match (self, other) {
            (
                DatabaseTestPoint::LocalBlobCleanupRequested,
                DatabaseTestPoint::LocalBlobCleanupRequested,
            ) => true,
            (
                DatabaseTestPoint::LocalBlobCleanupAcquired,
                DatabaseTestPoint::LocalBlobCleanupAcquired,
            ) => true,
            (
                DatabaseTestPoint::LocalBlobCleanupBeforeFilesystem { namespace, blob_id },
                DatabaseTestPoint::LocalBlobCleanupBeforeFilesystem {
                    namespace: other_namespace,
                    blob_id: other_id,
                },
            ) => same_text(namespace.as_str(), other_namespace.as_str()) && same_text(
                blob_id.as_str(),
                other_id.as_str(),
            ),
            (
                DatabaseTestPoint::LocalBlobCleanupFinished,
                DatabaseTestPoint::LocalBlobCleanupFinished,
            ) => true,
            (
                DatabaseTestPoint::PullAfterRemoteCommit { device_id, seq },
                DatabaseTestPoint::PullAfterRemoteCommit {
                    device_id: other_device,
                    seq: other_seq,
                },
            ) => same_text(device_id.as_str(), other_device.as_str()) && *seq == *other_seq,
            (
                DatabaseTestPoint::StoreWriteCommitUploaded { write_id },
                DatabaseTestPoint::StoreWriteCommitUploaded { write_id: other_write },
            ) => same_text(write_id.as_str(), other_write.as_str()),
            (
                DatabaseTestPoint::StoreWriteHeadReadBack { write_id },
                DatabaseTestPoint::StoreWriteHeadReadBack { write_id: other_write },
            ) => same_text(write_id.as_str(), other_write.as_str()),
            (
                DatabaseTestPoint::StoreDeviceExclusionCandidateStaged,
                DatabaseTestPoint::StoreDeviceExclusionCandidateStaged,
            ) => true,
            (
                DatabaseTestPoint::SerialStoreHeadActivated,
                DatabaseTestPoint::SerialStoreHeadActivated,
            ) => true,
            (
                DatabaseTestPoint::SerialStoreMaterialized,
                DatabaseTestPoint::SerialStoreMaterialized,
            ) => true,
            (
                DatabaseTestPoint::SerialRemovalBeforeAdoption,
                DatabaseTestPoint::SerialRemovalBeforeAdoption,
            ) => true,
            (
                DatabaseTestPoint::SerialMembershipTerminalized,
                DatabaseTestPoint::SerialMembershipTerminalized,
            ) => true,
            _ => false,
        }
    }
}

/// The point at which an operation is to pause, if one is armed.
#[derive(Debug)]
pub struct TestPausePoints {
    /// The armed point.
    pub armed: Option<DatabaseTestPoint>,
}

impl TestPausePoints {
    /// Nothing armed.
    pub fn new() -> (points: TestPausePoints)
        ensures
            points.armed is None,
    {
        TestPausePoints { armed: None }
    }

    /// Arms a pause at `point`. Only one can be armed at a time.
    pub fn arm(&mut self, point: DatabaseTestPoint)
        requires
            old(self).armed is None,
        ensures
            final(self).armed == Some(point),
    {
        self.armed = Some(point);
    }

    /// Says whether an operation that reached `point` pauses there. A pause is taken once.
    pub fn reach(&mut self, point: &DatabaseTestPoint) -> (pauses: bool)
        ensures
            pauses == (old(self).armed matches Some(armed) && armed@ == point@),
            final(self).armed == if pauses {
                None
            } else {
                old(self).armed
            },
    {
        let here: bool = match &self.armed {
            Some(armed) => armed.same(point),
            None => false,
        };
        if here {
            self.armed = None;
        }
        here
    }
}

/// A point of a merge at which a failure can be made to happen.
#[derive(Debug, Clone, Copy, PartialEq, Eq, Structural)]
pub enum MergeMaterializationFailurePoint {
    SummaryMaterialization,
    RetractionDeletion,
    ProjectionReplacement,
}

/// The point at which the next merge is to fail, if one is armed.
#[derive(Debug)]
pub struct MergeMaterializationFailureInjection {
    /// The armed point.
    pub armed: Option<MergeMaterializationFailurePoint>,
}

impl MergeMaterializationFailureInjection {
    /// Says whether a merge that reached `point` fails there. A failure happens once.
    pub fn reach(&mut self, point: MergeMaterializationFailurePoint) -> (fails: bool)
        ensures
            fails == (old(self).armed == Some(point)),
            final(self).armed == if fails {
                None
            } else {
                old(self).armed
            },
    {
        let here: bool = match self.armed {
            Some(armed) => armed == point,
            None => false,
        };
        if here {
            self.armed = None;
        }
        here
    }
}

/// Under which the state holds the id of this device.
pub const LOCAL_DEVICE_ID_STATE_KEY: &'static str = "local_device_id";

/// Under which the state holds the id that the host gave this device.
pub const HOST_DEVICE_ID_STATE_KEY: &'static str = "host_device_id";

/// Under which the state holds the store's write policy.
pub const WRITE_POLICY_STATE_KEY: &'static str = "write_policy";

/// Under which the state holds how writes are routed.
pub const SYNC_ROUTING_CONTRACT_STATE_KEY: &'static str = "sync_routing_contract";

/// Under which the state holds the hash of how writes are routed.
pub const SYNC_ROUTING_HASH_STATE_KEY: &'static str = "sync_routing_hash";

/// Under which the state holds the manifest of the schema.
pub const COVEN_SCHEMA_MANIFEST_STATE_KEY: &'static str = "coven_schema_manifest";

/// Under which the state holds that the database is set up.
pub const COVEN_INITIALIZED_STATE_KEY: &'static str = "coven_initialized";

/// What the state holds once the database is set up.
pub const COVEN_INITIALIZED_STATE_VALUE: &'static str = "1";

/// Under which the state of a serial store holds its members.
pub const SERIAL_MEMBERSHIP_STATE_KEY: &'static str = "serial_membership_state";

/// Under which the state of a serial store holds the generation of its key.
pub const SERIAL_KEY_GENERATION_STATE_KEY: &'static str = "serial_key_generation";

/// Under which the state of a serial store holds who administers its provider.
pub const SERIAL_PROVIDER_ADMIN_STATE_KEY: &'static str = "serial_provider_admin_state";

/// Under which the state of a serial store holds its wrapped keys.
pub const SERIAL_WRAPPED_KEYS_STATE_KEY: &'static str = "serial_wrapped_keys";

/// Under which the state of a serial store holds an abandoned candidate.
pub const SERIAL_CANDIDATE_ABANDONMENT_STATE_KEY: &'static str = "serial_candidate_abandonment";

/// Under which the state holds the founding state of the store's devices.
pub const STORE_DEVICE_GENESIS_STATE_KEY: &'static str = "store_device_genesis_state";

/// How the devices of a store order their writes.
#[derive(Debug, Clone, Copy, PartialEq, Eq, Structural)]
pub enum WritePolicy {
    /// Each device writes on its own, and the writes are merged.
    MergeConcurrent,
    /// All writes form one line.
    Serial,
}

/// What a store is set up from: its verified root, its verified founder and a published
/// snapshot. References, slots and the metadata are held in their canonical encodings.
#[derive(Debug)]
pub struct SnapshotBootstrap {
    /// The root's bytes as they were verified.
    pub root_bytes: Vec<u8>,
    /// The root's hash as it was verified.
    pub root_semantic_hash: ObjectHash,
    /// The root encoded again.
    pub root_encoded: Vec<u8>,
    /// The hash of the root encoded again.
    pub root_hash: ObjectHash,
    /// The reference to the root.
    pub root: String,
    /// The policy the root sets.
    pub root_policy: WritePolicy,
    /// The founder's hash as it was verified.
    pub founder_semantic_hash: ObjectHash,
    /// The hash of the founder's registration.
    pub founder_registration_hash: ObjectHash,
    /// The reference to the founder's registration.
    pub founder: String,
    /// The reference to the snapshot.
    pub snapshot: String,
    /// The snapshot's metadata.
    pub metadata: String,
    /// The slot that the metadata names for the next snapshot.
    pub next_slot: String,
    /// The slot that follows the snapshot.
    pub successor_slot: String,
    /// The policy of the snapshot's coverage.
    pub coverage_policy: WritePolicy,
    /// The commits that the snapshot covers, in the order in which they are recorded.
    pub coverage: Vec<CoveredCommit>,
}

/// What was verified to be stable: a snapshot, for a root and a founder.
#[derive(Debug)]
pub struct StabilityAuthority {
    /// The reference to the root.
    pub root: String,
    /// The reference to the founder's registration.
    pub founder: String,
    /// The reference to the snapshot.
    pub snapshot: String,
    /// The snapshot's metadata.
    pub metadata: String,
}

/// What keeps a store from being set up.
pub open spec fn bootstrap_fault(
    parts: SnapshotBootstrap,
    stability: StabilityAuthority,
    validity: Result<(), DbError>,
) -> Option<DbErrorView> {
    if parts.root_encoded@ != parts.root_bytes@ || parts.root_hash != parts.root_semantic_hash {
        Some(DbErrorView::Message("bootstrap Store root differs from its verified object"@))
    } else if parts.founder_semantic_hash != parts.founder_registration_hash {
        Some(
            DbErrorView::Message(
                "bootstrap founder semantic hash differs from its exact registration"@,
            ),
        )
    } else if validity is Err {
        Some(validity->Err_0@)
    } else if stability.root@ != parts.root@ || stability.founder@ != parts.founder@
        || stability.snapshot@ != parts.snapshot@ || stability.metadata@ != parts.metadata@
        || parts.next_slot@ != parts.successor_slot@ || parts.coverage_policy
        != parts.root_policy {
        Some(
            DbErrorView::Message(
                "bootstrap snapshot differs from its verified stability authority"@,
            ),
        )
    } else {
        None
    }
}

/// A store set up from a snapshot whose parts agree with each other.
#[derive(Debug)]
pub struct VerifiedSnapshotBootstrapInstall {
    parts: SnapshotBootstrap,
    stability: StabilityAuthority,
}

impl VerifiedSnapshotBootstrapInstall {
    /// What the store is set up from.
    pub closed spec fn parts(self) -> SnapshotBootstrap {
        self.parts
    }

    /// What was verified to be stable.
    pub closed spec fn stability(self) -> StabilityAuthority {
        self.stability
    }

    /// Joins the parts, having checked that they agree: the root with its verified object,
    /// the founder with its registration, and everything with what was verified to be
    /// stable, whose own `validity` is checked in between.
    pub fn new(
        parts: SnapshotBootstrap,
        stability: StabilityAuthority,
        validity: Result<(), DbError>,
    ) -> (install: Result<VerifiedSnapshotBootstrapInstall, DbError>)
        ensures
            match bootstrap_fault(parts, stability, validity) {
                Some(fault) => install matches Err(error) && error@ == fault,
                None => install matches Ok(joined) && joined.parts() == parts && joined.stability()
                    == stability,
            },
    {
        if !same_bytes(parts.root_encoded.as_slice(), parts.root_bytes.as_slice()) || !parts.root_hash.same(
            &parts.root_semantic_hash,
        ) {
            return Err(
                DbError::Message("bootstrap Store root differs from its verified object".to_owned()),
            );
        }
        if !parts.founder_semantic_hash.same(&parts.founder_registration_hash) {
            return Err(
                DbError::Message(
                    "bootstrap founder semantic hash differs from its exact registration".to_owned(),
                ),
            );
        }
        match validity {
            Err(error) => return Err(error),
            Ok(_) => {},
        }
        if !same_text(stability.root.as_str(), parts.root.as_str()) || !same_text(
            stability.founder.as_str(),
            parts.founder.as_str(),
        ) || !same_text(stability.snapshot.as_str(), parts.snapshot.as_str()) || !same_text(
            stability.metadata.as_str(),
            parts.metadata.as_str(),
        ) || !same_text(parts.next_slot.as_str(), parts.successor_slot.as_str())
            || parts.coverage_policy != parts.root_policy {
            return Err(
                DbError::Message(
                    "bootstrap snapshot differs from its verified stability authority".to_owned(),
                ),
            );
        }
        Ok(VerifiedSnapshotBootstrapInstall { parts, stability })
    }

    /// Starts installing the store, with the commits that the snapshot covers.
    pub fn install_on(&self) -> (install: SnapshotInstall)
        ensures
            install.coverage@ == self.parts().coverage@,
            install.step is ResolveGenesis,
    {
        let mut coverage: VecDeque<CoveredCommit> = VecDeque::new();
        let mut i: usize = 0;
        while i < self.parts.coverage.len()
            invariant
                i <= self.parts.coverage.len(),
                coverage@ == self.parts.coverage@.take(i as int),
            decreases self.parts.coverage.len() - i,
        {
            coverage.push_back(self.parts.coverage[i].clone());
            i = i + 1;
            assert(coverage@ =~= self.parts.coverage@.take(i as int));
        }
        assert(coverage@ =~= self.parts.coverage@);
        SnapshotInstall { coverage, step: InstallStep::ResolveGenesis }
    }
}

/// The last commit of a stream that a snapshot covers.
#[derive(Debug)]
pub struct CoveredCommit {
    /// The stream.
    pub stream_id: String,
    /// The commit's place in it.
    pub sequence: u64,
}

impl Clone for CoveredCommit {
    fn clone(&self) -> (copy: CoveredCommit)
        ensures
            copy == *self,
    {
        CoveredCommit { stream_id: self.stream_id.clone(), sequence: self.sequence }
    }
}

/// The statement that forgets what an earlier snapshot covered.
pub fn clear_coverage_sql() -> (sql: String)
    ensures
        sql@ == "DELETE FROM snapshot_coverage"@,
{
    "DELETE FROM snapshot_coverage".to_owned()
}

/// The statement that records a covered commit. Its parameters are the stream, the place
/// in it, the encoded reference and the snapshot's hash.
pub fn record_coverage_sql() -> (sql: String)
    ensures
        sql@
            == "INSERT INTO snapshot_coverage (device_id, seq, commit_ref, snapshot_hash) VALUES (?1, ?2, ?3, ?4)"@,
{
    "INSERT INTO snapshot_coverage (device_id, seq, commit_ref, snapshot_hash) VALUES (?1, ?2, ?3, ?4)".to_owned()
}

/// The operation that an installation performs next. All of them run in one transaction.
#[derive(Debug)]
pub enum InstallStep {
    /// Derive the founding state of the store's devices.
    ResolveGenesis,
    /// Check who owns the snapshot's objects.
    CheckOwners,
    /// Record the root.
    InstallRoot,
    /// Record the founder and the founding state.
    InstallFounder,
    /// Forget what an earlier snapshot covered.
    ClearCoverage,
    /// Encode the reference to a covered commit.
    EncodeCommit { covered: CoveredCommit },
    /// Record a covered commit.
    RecordCoverage { covered: CoveredCommit, commit_ref: String },
    /// Record the baseline from which writes are replayed.
    InstallBaseline,
    /// Done.
    Done,
    /// Given up.
    Failed { error: DbError },
}

/// What an operation came to.
#[derive(Debug)]
pub enum InstallReply {
    /// The founding state was derived, or not, in words.
    Genesis(Result<(), String>),
    /// A reference was encoded, or not, in words.
    Encoded(Result<String, String>),
    /// The database did what it was asked, or not.
    Db(Result<(), DbError>),
}

/// The installation of a store from a snapshot.
#[derive(Debug)]
pub struct SnapshotInstall {
    /// The covered commits that are not recorded yet.
    pub coverage: VecDeque<CoveredCommit>,
    /// What happens next.
    pub step: InstallStep,
}

impl SnapshotInstall {
    /// The same installation at another step.
    pub open spec fn at(self, step: InstallStep) -> SnapshotInstall {
        SnapshotInstall { step, ..self }
    }

    /// What a change of the database leads to.
    pub open spec fn stored(self, done: Result<(), DbError>, step: InstallStep) -> SnapshotInstall {
        match done {
            Err(error) => self.at(InstallStep::Failed { error }),
            Ok(_) => self.at(step),
        }
    }

    /// The next covered commit in turn, or the baseline where none is left.
    pub open spec fn continues(self, next: SnapshotInstall) -> bool {
        if self.coverage@.len() == 0 {
            next.coverage@ == self.coverage@ && next.step is InstallBaseline
        } else {
            next.coverage@ == self.coverage@.skip(1) && next.step == (InstallStep::EncodeCommit {
                covered: self.coverage@[0],
            })
        }
    }

    /// What follows on each reply. A reply that does not answer the step changes nothing.
    pub open spec fn follows(self, reply: InstallReply, next: SnapshotInstall) -> bool {
        match (self.step, reply) {
            (InstallStep::ResolveGenesis, InstallReply::Genesis(derived)) => next == (
            match derived {
                Err(detail) => self.at(InstallStep::Failed { error: DbError::Message(detail) }),
                Ok(_) => self.at(InstallStep::CheckOwners),
            }),
            (InstallStep::CheckOwners, InstallReply::Db(done)) => next == self.stored(
                done,
                InstallStep::InstallRoot,
            ),
            (InstallStep::InstallRoot, InstallReply::Db(done)) => next == self.stored(
                done,
                InstallStep::InstallFounder,
            ),
            (InstallStep::InstallFounder, InstallReply::Db(done)) => next == self.stored(
                done,
                InstallStep::ClearCoverage,
            ),
            (InstallStep::ClearCoverage, InstallReply::Db(done)) => match done {
                Err(error) => next == self.at(InstallStep::Failed { error }),
                Ok(_) => self.continues(next),
            },
            (InstallStep::EncodeCommit { covered }, InstallReply::Encoded(encoded)) => {
                &&& next == self.at(next.step)
                &&& match encoded {
                    Err(detail) => (next.step matches InstallStep::Failed { error } && error@
                        == DbErrorView::Message(
                        "serialize snapshot exact commit ref: "@ + detail@,
                    )),
                    Ok(commit_ref) => next.step == (InstallStep::RecordCoverage {
                        covered,
                        commit_ref,
                    }),
                }
            },
            (InstallStep::RecordCoverage { .. }, InstallReply::Db(done)) => match done {
                Err(error) => next == self.at(InstallStep::Failed { error }),
                Ok(_) => self.continues(next),
            },
            (InstallStep::InstallBaseline, InstallReply::Db(done)) => next == self.stored(
                done,
                InstallStep::Done,
            ),
            _ => next == self,
        }
    }

    fn go(self, step: InstallStep) -> (next: SnapshotInstall)
        ensures
            next == self.at(step),
    {
        SnapshotInstall { step, ..self }
    }

    fn store(self, done: Result<(), DbError>, step: InstallStep) -> (next: SnapshotInstall)
        ensures
            next == self.stored(done, step),
    {
        match done {
            Err(error) => self.go(InstallStep::Failed { error }),
            Ok(_) => self.go(step),
        }
    }

    fn advance(self) -> (next: SnapshotInstall)
        ensures
            self.continues(next),
    {
        let SnapshotInstall { coverage, step: _ } = self;
        let mut coverage: VecDeque<CoveredCommit> = coverage;
        match coverage.pop_front() {
            Some(covered) => {
                assert(coverage@ =~= self.coverage@.skip(1));
                SnapshotInstall { coverage, step: InstallStep::EncodeCommit { covered } }
            },
            None => SnapshotInstall { coverage, step: InstallStep::InstallBaseline },
        }
    }

    /// Takes the reply to the present step and decides the next one.
    pub fn next(self, reply: InstallReply) -> (next: SnapshotInstall)
        ensures
            self.follows(reply, next),
    {
        let SnapshotInstall { coverage, step } = self;
        let here = SnapshotInstall { coverage, step: InstallStep::Done };
        match (step, reply) {
            (InstallStep::ResolveGenesis, InstallReply::Genesis(derived)) => match derived {
                Err(detail) => here.go(InstallStep::Failed { error: DbError::Message(detail) }),
                Ok(_) => here.go(InstallStep::CheckOwners),
            },
            (InstallStep::CheckOwners, InstallReply::Db(done)) => here.store(
                done,
                InstallStep::InstallRoot,
            ),
            (InstallStep::InstallRoot, InstallReply::Db(done)) => here.store(
                done,
                InstallStep::InstallFounder,
            ),
            (InstallStep::InstallFounder, InstallReply::Db(done)) => here.store(
                done,
                InstallStep::ClearCoverage,
            ),
            (InstallStep::ClearCoverage, InstallReply::Db(done)) => match done {
                Err(error) => here.go(InstallStep::Failed { error }),
                Ok(_) => here.advance(),
            },
            (InstallStep::EncodeCommit { covered }, InstallReply::Encoded(encoded)) => match encoded {
                Err(detail) => here.go(
                    InstallStep::Failed {
                        error: DbError::Message(
                            "serialize snapshot exact commit ref: ".to_owned().concat(
                                detail.as_str(),
                            ),
                        ),
                    },
                ),
                Ok(commit_ref) => here.go(InstallStep::RecordCoverage { covered, commit_ref }),
            },
            (InstallStep::RecordCoverage { .. }, InstallReply::Db(done)) => match done {
                Err(error) => here.go(InstallStep::Failed { error }),
                Ok(_) => here.advance(),
            },
            (InstallStep::InstallBaseline, InstallReply::Db(done)) => here.store(
                done,
                InstallStep::Done,
            ),
            (step, _) => here.go(step),
        }
    }
}

/// The baseline is recorded last: an installation comes to it only with every covered
/// commit recorded, and is done only with the baseline recorded.
pub proof fn law_baseline_is_installed_last(
    before: SnapshotInstall,
    reply: InstallReply,
    after: SnapshotInstall,
)
    requires
        before.follows(reply, after),
    ensures
        after.step is InstallBaseline && !(before.step is InstallBaseline)
            ==> before.coverage@.len() == 0 && (before.step is ClearCoverage
            || before.step is RecordCoverage) && (reply matches InstallReply::Db(Ok(_))),
        after.step is Done && !(before.step is Done) ==> before.step is InstallBaseline && (
        reply matches InstallReply::Db(Ok(_))),
{
}

} // verus!
