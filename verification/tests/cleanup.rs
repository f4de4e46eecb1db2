use coven_core::blob::local_cleanup::{
    exact_locator_hash, locator_bindings_sql, pending_intents_sql, record_intent_sql,
    remove_intent_sql, CleanupDrain, CleanupReply, CleanupStep, LocalBlobCleanupIdentity,
    LocalBlobCleanupIntent, RecordObsoleteCopies, RecordReply, RecordStep,
};
use coven_core::database::DbError;
use coven_core::digest::ObjectHash;
use std::collections::VecDeque;

fn hash() -> ObjectHash {
    ObjectHash::digest(b"locator")
}

fn exact() -> LocalBlobCleanupIntent {
    LocalBlobCleanupIntent::exact("photos".to_string(), "photoaaa".to_string(), hash())
}

fn local() -> LocalBlobCleanupIntent {
    LocalBlobCleanupIntent::local("photos".to_string(), "photoaaa".to_string())
}

fn for_row() -> LocalBlobCleanupIntent {
    LocalBlobCleanupIntent::for_row(
        "photos".to_string(),
        "photoaaa".to_string(),
        "note_photos".to_string(),
        "p1".to_string(),
    )
}

#[test]
fn a_recorded_obligation_reads_back() {
    assert_eq!(exact().namespace(), "photos");
    assert_eq!(exact().blob_id(), "photoaaa");
    let read = |text: String| {
        LocalBlobCleanupIntent::from_persisted("photos".to_string(), "photoaaa".to_string(), text)
    };
    let back = read(exact().persisted_identity().unwrap()).unwrap();
    assert!(matches!(back.identity, LocalBlobCleanupIdentity::Exact(found) if found.same(&hash())));
    let back = read(local().persisted_identity().unwrap()).unwrap();
    assert!(matches!(back.identity, LocalBlobCleanupIdentity::Local));
    assert!(for_row().persisted_identity().is_err());
    assert!(read("nonsense".to_string()).is_err());
}

#[test]
fn a_row_binds_one_exact_locator() {
    let text = hash().to_text();
    assert!(matches!(
        exact_locator_hash("note_photos", "p1", &vec![]),
        Ok(None)
    ));
    let twice = exact_locator_hash("note_photos", "p1", &vec![text.clone(), text.clone()]);
    assert!(matches!(twice, Ok(Some(found)) if found.same(&hash())));
    let other = ObjectHash::digest(b"other").to_text();
    assert!(exact_locator_hash("note_photos", "p1", &vec![text, other]).is_err());
    assert!(exact_locator_hash("note_photos", "p1", &vec!["short".to_string()]).is_err());
}

#[test]
fn only_copies_that_nothing_needs_are_recorded() {
    let work = RecordObsoleteCopies::start(for_row());
    assert!(matches!(work.step, RecordStep::ReadBindings { .. }));
    let work = work.next(RecordReply::Bindings(Ok(vec![hash().to_text()])));
    assert!(matches!(&work.step, RecordStep::CheckExact { hash: found } if found.same(&hash())));
    let needed = RecordObsoleteCopies::start(for_row())
        .next(RecordReply::Bindings(Ok(vec![hash().to_text()])))
        .next(RecordReply::Referenced(Ok(true)));
    assert!(matches!(needed.step, RecordStep::CheckLocal));
    let work = work.next(RecordReply::Referenced(Ok(false)));
    match &work.step {
        RecordStep::RecordExact { intent } => {
            assert!(matches!(intent.identity, LocalBlobCleanupIdentity::Exact(_)));
        }
        other => panic!("{other:?}"),
    }
    let work = work.next(RecordReply::Recorded(Ok(())));
    assert!(matches!(work.step, RecordStep::CheckLocal));
    let live = RecordObsoleteCopies::start(local()).next(RecordReply::Referenced(Ok(true)));
    assert!(matches!(live.step, RecordStep::Done));
    let work = work.next(RecordReply::Referenced(Ok(false)));
    assert!(matches!(work.step, RecordStep::RecordLocal { .. }));
    let work = work.next(RecordReply::Recorded(Ok(())));
    assert!(matches!(work.step, RecordStep::Done));
}

#[test]
fn a_failed_lookup_records_nothing() {
    let work = RecordObsoleteCopies::start(for_row())
        .next(RecordReply::Bindings(Err(DbError::Message("locked".to_string()))));
    assert!(matches!(work.step, RecordStep::Failed { .. }));
    match RecordObsoleteCopies::start(exact()).step {
        RecordStep::Failed { error } => assert_eq!(
            error.into_message(),
            "exact local cleanup identity is already durable"
        ),
        other => panic!("{other:?}"),
    }
}

#[test]
fn an_obligation_stays_until_its_copy_is_gone() {
    let mut pending = VecDeque::new();
    pending.push_back((exact(), false));
    pending.push_back((local(), false));
    let drain = CleanupDrain::start(pending);
    assert!(matches!(&drain.step, CleanupStep::DropExact { hash: found, .. } if found.same(&hash())));
    let drain = drain.next(CleanupReply::Dropped(Ok(())));
    assert!(matches!(drain.step, CleanupStep::RemoveIntent { .. }));
    let drain = drain.next(CleanupReply::Removed(Ok(())));
    assert!(matches!(drain.step, CleanupStep::DropLocal { .. }));
    let drain = drain.next(CleanupReply::Dropped(Err("busy".to_string())));
    match drain.step {
        CleanupStep::Failed { error } => assert_eq!(
            error.into_message(),
            "remove local copies for photos/photoaaa: busy"
        ),
        other => panic!("{other:?}"),
    }
}

#[test]
fn a_leased_copy_is_left_and_reported() {
    let mut pending = VecDeque::new();
    pending.push_back((exact(), true));
    let drain = CleanupDrain::start(pending);
    assert!(matches!(drain.step, CleanupStep::Done));
    assert!(drain.blocked);
    let mut mixed = VecDeque::new();
    mixed.push_back((exact(), true));
    mixed.push_back((local(), false));
    let drain = CleanupDrain::start(mixed);
    assert!(matches!(drain.step, CleanupStep::DropLocal { .. }));
    assert!(!CleanupDrain::start(VecDeque::new()).blocked);
}

fn cleanup_database() -> rusqlite::Connection {
    let conn = rusqlite::Connection::open_in_memory().unwrap();
    conn.execute_batch(
        "CREATE TABLE local_cleanup_intents (namespace TEXT, blob_id TEXT, copy_identity TEXT, \
         PRIMARY KEY (namespace, blob_id, copy_identity));
         CREATE TABLE store_write_blob_leases (namespace TEXT, blob_id TEXT);
         CREATE TABLE row_blob_locators (table_name TEXT, row_id TEXT, remote_object_id TEXT);
         CREATE TABLE blob_locators (remote_object_id TEXT, locator_hash TEXT);",
    )
    .unwrap();
    conn
}

fn pending_rows(conn: &rusqlite::Connection) -> Vec<(String, String, bool)> {
    let mut statement = conn.prepare(&pending_intents_sql()).unwrap();
    statement
        .query_map([], |row| Ok((row.get(1)?, row.get(2)?, row.get(3)?)))
        .unwrap()
        .collect::<Result<Vec<_>, rusqlite::Error>>()
        .unwrap()
}

#[test]
fn only_a_local_copy_is_leased_and_it_comes_last() {
    let conn = cleanup_database();
    conn.execute("INSERT INTO store_write_blob_leases VALUES ('photos', 'aaa')", []).unwrap();
    let mut inserted = Vec::new();
    for (blob, identity) in
        [("bbb", "local"), ("aaa", "local"), ("aaa", "zz"), ("aaa", "11"), ("aaa", "11")]
    {
        inserted.push(conn.execute(&record_intent_sql(), ("photos", blob, identity)).unwrap());
    }
    assert_eq!(inserted, vec![1, 1, 1, 1, 0]);
    let row = |blob: &str, identity: &str, leased| (blob.to_string(), identity.to_string(), leased);
    assert_eq!(
        pending_rows(&conn),
        vec![
            row("aaa", "11", false),
            row("aaa", "zz", false),
            row("aaa", "local", true),
            row("bbb", "local", false),
        ]
    );
    assert_eq!(conn.execute(&remove_intent_sql(), ("photos", "aaa", "zz")).unwrap(), 1);
    assert_eq!(pending_rows(&conn).len(), 3);
}

#[test]
fn a_rows_locators_are_read_through_its_bindings() {
    let conn = cleanup_database();
    conn.execute_batch(
        "INSERT INTO row_blob_locators VALUES ('note_photos', 'p1', 'o1'), ('note_photos', 'p2', 'o2');
         INSERT INTO blob_locators VALUES ('o1', 'h1'), ('o2', 'h2');",
    )
    .unwrap();
    let mut statement = conn.prepare(&locator_bindings_sql()).unwrap();
    let hashes = statement
        .query_map(("note_photos", "p1"), |row| row.get::<_, String>(0))
        .unwrap()
        .collect::<Result<Vec<String>, rusqlite::Error>>()
        .unwrap();
    assert_eq!(hashes, vec!["h1"]);
}
