use coven_core::database::{
    authorize_host_sql, clear_coverage_sql, record_coverage_sql, CoveredCommit, DatabaseTestPoint, DbError, InstallReply, InstallStep,
    MergeMaterializationFailureInjection, MergeMaterializationFailurePoint, MigrationError,
    OpenError, SnapshotBootstrap, SqlAccess, SqlAction, SqlVerdict, StabilityAuthority,
    TestPausePoints, VerifiedSnapshotBootstrapInstall, WritePolicy, COVEN_INITIALIZED_STATE_KEY,
    COVEN_INITIALIZED_STATE_VALUE, COVEN_SCHEMA_MANIFEST_STATE_KEY, HOST_DEVICE_ID_STATE_KEY,
    LOCAL_DEVICE_ID_STATE_KEY, SERIAL_CANDIDATE_ABANDONMENT_STATE_KEY,
    SERIAL_KEY_GENERATION_STATE_KEY, SERIAL_MEMBERSHIP_STATE_KEY, SERIAL_PROVIDER_ADMIN_STATE_KEY,
    SERIAL_WRAPPED_KEYS_STATE_KEY, STORE_DEVICE_GENESIS_STATE_KEY, SYNC_ROUTING_CONTRACT_STATE_KEY,
    SYNC_ROUTING_HASH_STATE_KEY, WRITE_POLICY_STATE_KEY,
};
use coven_core::digest::ObjectHash;

fn access(database: Option<&str>, action: SqlAction) -> SqlVerdict {
    authorize_host_sql(&SqlAccess { database: database.map(str::to_string), action })
}

#[test]
fn host_sql_does_not_reach_the_baseline() {
    assert_eq!(access(None, SqlAction::Other), SqlVerdict::Allow);
    assert_eq!(access(Some("main"), SqlAction::Other), SqlVerdict::Allow);
    assert_eq!(access(Some("coven_gate_empty"), SqlAction::Other), SqlVerdict::Deny);
    assert_eq!(access(Some("COVEN_Gate_Empty"), SqlAction::Other), SqlVerdict::Deny);
    assert_eq!(access(Some("coven_gate_empty2"), SqlAction::Other), SqlVerdict::Allow);
    let detach = |name: &str| SqlAction::Detach { database: name.to_string() };
    assert_eq!(access(None, detach("Coven_gate_empty")), SqlVerdict::Deny);
    assert_eq!(access(None, detach("mine")), SqlVerdict::Allow);
    let pragma = |name: &str| SqlAction::Pragma { name: name.to_string() };
    assert_eq!(access(None, pragma("DATABASE_LIST")), SqlVerdict::Deny);
    assert_eq!(access(None, pragma("user_version")), SqlVerdict::Allow);
}

#[test]
fn database_errors_say_what_they_are() {
    let error = DbError::Message("locked".to_string());
    assert_eq!(error.message(), "database error: locked");
    assert_eq!(error.into_message(), "locked");
    assert_eq!(
        DbError::missing_store_root_hash().message(),
        "database error: Store protocol root hash is absent"
    );
    assert_eq!(
        DbError::missing_store_root_hash().into_message(),
        "Store protocol root hash is absent"
    );
    assert_eq!(
        OpenError::Db(DbError::Message("locked".to_string())).message(),
        "database error: locked"
    );
    assert_eq!(
        OpenError::Migration(MigrationError::SchemaTooNew("schema 9".to_string())).message(),
        "schema 9"
    );
    assert_eq!(
        OpenError::Migration(MigrationError::Failed("step 2".to_string())).message(),
        "step 2"
    );
}

#[test]
fn a_pause_is_taken_once_and_only_at_its_point() {
    let mut points = TestPausePoints::new();
    let before = |id: &str| DatabaseTestPoint::LocalBlobCleanupBeforeFilesystem {
        namespace: "photos".to_string(),
        blob_id: id.to_string(),
    };
    assert!(!points.reach(&before("a")));
    points.arm(before("a"));
    assert!(!points.reach(&before("b")));
    assert!(!points.reach(&DatabaseTestPoint::LocalBlobCleanupFinished));
    assert!(points.reach(&before("a")));
    assert!(!points.reach(&before("a")));
    let pull = |seq| DatabaseTestPoint::PullAfterRemoteCommit { device_id: "d".to_string(), seq };
    assert!(pull(1).same(&pull(1)));
    assert!(!pull(1).same(&pull(2)));
}

#[test]
fn a_merge_fails_once_at_its_point() {
    let mut injection = MergeMaterializationFailureInjection {
        armed: Some(MergeMaterializationFailurePoint::RetractionDeletion),
    };
    assert!(!injection.reach(MergeMaterializationFailurePoint::SummaryMaterialization));
    assert!(injection.reach(MergeMaterializationFailurePoint::RetractionDeletion));
    assert!(!injection.reach(MergeMaterializationFailurePoint::RetractionDeletion));
}

fn parts() -> SnapshotBootstrap {
    SnapshotBootstrap {
        root_bytes: b"root".to_vec(),
        root_semantic_hash: ObjectHash::digest(b"root"),
        root_encoded: b"root".to_vec(),
        root_hash: ObjectHash::digest(b"root"),
        root: "root-ref".to_string(),
        root_policy: WritePolicy::MergeConcurrent,
        founder_semantic_hash: ObjectHash::digest(b"founder"),
        founder_registration_hash: ObjectHash::digest(b"founder"),
        founder: "founder-ref".to_string(),
        snapshot: "snapshot-ref".to_string(),
        metadata: "meta".to_string(),
        next_slot: "slot-2".to_string(),
        successor_slot: "slot-2".to_string(),
        coverage_policy: WritePolicy::MergeConcurrent,
        coverage: vec![CoveredCommit { stream_id: "s1".to_string(), sequence: 4 }],
    }
}

fn stability() -> StabilityAuthority {
    StabilityAuthority {
        root: "root-ref".to_string(),
        founder: "founder-ref".to_string(),
        snapshot: "snapshot-ref".to_string(),
        metadata: "meta".to_string(),
    }
}

fn refusal(parts: SnapshotBootstrap, stability: StabilityAuthority) -> String {
    VerifiedSnapshotBootstrapInstall::new(parts, stability, Ok(())).unwrap_err().into_message()
}

#[test]
fn a_bootstrap_whose_parts_disagree_is_refused() {
    assert!(VerifiedSnapshotBootstrapInstall::new(parts(), stability(), Ok(())).is_ok());
    let mut other = parts();
    other.root_encoded = b"other".to_vec();
    assert_eq!(
        refusal(other, stability()),
        "bootstrap Store root differs from its verified object"
    );
    let mut other = parts();
    other.founder_registration_hash = ObjectHash::digest(b"stranger");
    assert_eq!(
        refusal(other, stability()),
        "bootstrap founder semantic hash differs from its exact registration"
    );
    let differs = "bootstrap snapshot differs from its verified stability authority";
    let mut other = parts();
    other.successor_slot = "slot-3".to_string();
    assert_eq!(refusal(other, stability()), differs);
    let mut other = parts();
    other.coverage_policy = WritePolicy::Serial;
    assert_eq!(refusal(other, stability()), differs);
    let mut unstable = stability();
    unstable.metadata = "other".to_string();
    assert_eq!(refusal(parts(), unstable), differs);
    let invalid = VerifiedSnapshotBootstrapInstall::new(
        parts(),
        stability(),
        Err(DbError::Message("unstable".to_string())),
    );
    assert_eq!(invalid.unwrap_err().into_message(), "unstable");
}

#[test]
fn an_installation_ends_with_its_baseline() {
    let install = VerifiedSnapshotBootstrapInstall::new(parts(), stability(), Ok(())).unwrap();
    let work = install.install_on();
    assert_eq!(work.coverage.len(), 1);
    let work = work.next(InstallReply::Genesis(Ok(())));
    assert!(matches!(work.step, InstallStep::CheckOwners));
    let done = || InstallReply::Db(Ok(()));
    let work = work.next(done()).next(done()).next(done());
    assert!(matches!(work.step, InstallStep::ClearCoverage));
    let work = work.next(done());
    assert!(matches!(&work.step, InstallStep::EncodeCommit { covered } if covered.sequence == 4));
    let work = work.next(InstallReply::Encoded(Ok("{}".to_string())));
    assert!(matches!(&work.step, InstallStep::RecordCoverage { commit_ref, .. } if commit_ref == "{}"));
    let work = work.next(done());
    assert!(matches!(work.step, InstallStep::InstallBaseline));
    assert!(matches!(work.next(done()).step, InstallStep::Done));
}

#[test]
fn an_installation_stops_at_its_first_failure() {
    let start = || {
        VerifiedSnapshotBootstrapInstall::new(parts(), stability(), Ok(())).unwrap().install_on()
    };
    let said = |step: InstallStep| match step {
        InstallStep::Failed { error } => error.into_message(),
        other => panic!("{other:?}"),
    };
    let genesis = start().next(InstallReply::Genesis(Err("no founder".to_string())));
    assert_eq!(said(genesis.step), "no founder");
    let owners = start()
        .next(InstallReply::Genesis(Ok(())))
        .next(InstallReply::Db(Err(DbError::Message("owners".to_string()))));
    assert_eq!(said(owners.step), "owners");
    let mut work = start().next(InstallReply::Genesis(Ok(())));
    for _ in 0..4 {
        work = work.next(InstallReply::Db(Ok(())));
    }
    let work = work.next(InstallReply::Encoded(Err("depth".to_string())));
    assert_eq!(said(work.step), "serialize snapshot exact commit ref: depth");
}

#[test]
fn the_state_keeps_its_values_under_fixed_keys() {
    assert_eq!(LOCAL_DEVICE_ID_STATE_KEY, "local_device_id");
    assert_eq!(HOST_DEVICE_ID_STATE_KEY, "host_device_id");
    assert_eq!(WRITE_POLICY_STATE_KEY, "write_policy");
    assert_eq!(SYNC_ROUTING_CONTRACT_STATE_KEY, "sync_routing_contract");
    assert_eq!(SYNC_ROUTING_HASH_STATE_KEY, "sync_routing_hash");
    assert_eq!(COVEN_SCHEMA_MANIFEST_STATE_KEY, "coven_schema_manifest");
    assert_eq!(COVEN_INITIALIZED_STATE_KEY, "coven_initialized");
    assert_eq!(COVEN_INITIALIZED_STATE_VALUE, "1");
    assert_eq!(SERIAL_MEMBERSHIP_STATE_KEY, "serial_membership_state");
    assert_eq!(SERIAL_KEY_GENERATION_STATE_KEY, "serial_key_generation");
    assert_eq!(SERIAL_PROVIDER_ADMIN_STATE_KEY, "serial_provider_admin_state");
    assert_eq!(SERIAL_WRAPPED_KEYS_STATE_KEY, "serial_wrapped_keys");
    assert_eq!(SERIAL_CANDIDATE_ABANDONMENT_STATE_KEY, "serial_candidate_abandonment");
    assert_eq!(STORE_DEVICE_GENESIS_STATE_KEY, "store_device_genesis_state");
}

#[test]
fn coverage_is_replaced_by_what_the_snapshot_covers() {
    let conn = rusqlite::Connection::open_in_memory().unwrap();
    conn.execute_batch(
        "CREATE TABLE snapshot_coverage (device_id TEXT, seq INTEGER, commit_ref TEXT, snapshot_hash TEXT)",
    )
    .unwrap();
    for seq in [3, 4] {
        conn.execute(&record_coverage_sql(), ("s1", seq, "{}", "h")).unwrap();
    }
    assert_eq!(conn.execute(&clear_coverage_sql(), []).unwrap(), 2);
    conn.execute(&record_coverage_sql(), ("s1", 5, "{}", "h")).unwrap();
    let seq: i64 =
        conn.query_row("SELECT seq FROM snapshot_coverage", [], |row| row.get(0)).unwrap();
    assert_eq!(seq, 5);
}
