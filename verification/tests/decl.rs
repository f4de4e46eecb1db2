use coven_core::blob::decl::{
    all_rows_sql, blob_cloud_key_parts, cleanup_guards, column_on_row_sql, declared_size,
    hashed_blob_key_parts, parse_integer, plain_blob_key_parts, resolve_decl, row_sql, BlobDeclError,
    BlobDecls, GeneratedBlobKey, RowChange,
};
use coven_core::blob::{BlobScope, CacheFill, Provenance};
use coven_core::session::{gate_column, is_remote_root, BlobDecl, SyncedTable};

fn decl(cloud_path: Option<&str>) -> BlobDecl {
    BlobDecl {
        namespace: "photos".to_string(),
        provenance: Provenance::UserProvided,
        fill: CacheFill::CacheLazy,
        scope: BlobScope::Master,
        id_column: "id".to_string(),
        size_column: "size".to_string(),
        hash_column: "hash".to_string(),
        cloud_path_column: cloud_path.map(str::to_string),
    }
}

fn synced(name: &str, blob: Option<BlobDecl>) -> SyncedTable {
    SyncedTable { name: name.to_string(), blob, gate_column: None, remote_root: false }
}

fn columns() -> Vec<String> {
    ["id", "note_id", "size", "hash", "cloud_path"].iter().map(|c| c.to_string()).collect()
}

fn values(id: Option<&str>, size: Option<&str>) -> Vec<Option<String>> {
    vec![
        id.map(str::to_string),
        Some("n1".to_string()),
        size.map(str::to_string),
        Some("ab".repeat(32)),
        Some("cv/photo.jpg".to_string()),
    ]
}

fn decls() -> BlobDecls {
    BlobDecls::from_tables(
        &vec![Ok(columns()), Ok(vec![])],
        &vec![synced("note_photos", Some(decl(Some("cloud_path")))), synced("notes", None)],
    )
    .unwrap()
}

fn change(table: &str, id: Option<&str>, size: Option<&str>) -> RowChange {
    RowChange { table: table.to_string(), columns: values(id, size) }
}

#[test]
fn a_declaration_is_resolved_to_columns() {
    let blob = resolve_decl(&decl(Some("cloud_path")), "note_photos", &columns()).unwrap();
    assert_eq!((blob.id_col, blob.size_col, blob.hash_col), (0, 2, 3));
    assert_eq!(blob.cloud_path_col, Some(4));
    let mut missing = decl(None);
    missing.size_column = "length".to_string();
    let error = resolve_decl(&missing, "note_photos", &columns()).unwrap_err();
    assert_eq!(
        error.message(),
        "blob declaration names column \"length\" absent from \"note_photos\""
    );
}

#[test]
fn a_row_is_derived_to_the_blob_it_carries() {
    let decls = decls();
    let blob = decls.ref_from_change(&change("note_photos", Some("photoaaa"), Some("3"))).unwrap().unwrap();
    assert_eq!(blob.namespace, "photos");
    assert_eq!(blob.id, "photoaaa");
    assert_eq!(blob.cloud_path.as_deref(), Some("cv/photo.jpg"));
    assert_eq!(blob.provenance, Provenance::UserProvided);
    assert!(decls.ref_from_change(&change("note_photos", None, Some("3"))).unwrap().is_none());
    assert!(decls.ref_from_change(&change("notes", Some("n1"), None)).unwrap().is_none());

    let (blob, size, hash) = decls
        .ref_size_hash_from_change(&change("note_photos", Some("photoaaa"), Some("3")))
        .unwrap()
        .unwrap();
    assert_eq!(blob.id, "photoaaa");
    assert_eq!(size, Some(3));
    assert_eq!(hash, Some("ab".repeat(32)));

    let refs = decls.refs_in_rows(&vec![
        change("note_photos", Some("a0000001"), Some("1")),
        change("note_photos", None, Some("1")),
        change("note_photos", Some("a0000002"), Some("1")),
    ]);
    let ids: Vec<&str> = refs.iter().map(|blob| blob.id.as_str()).collect();
    assert_eq!(ids, vec!["a0000001", "a0000002"]);
}

#[test]
fn a_size_that_is_no_length_is_refused() {
    let decls = decls();
    let sized = |size| decls.ref_size_hash_from_change(&change("note_photos", Some("photoaaa"), size));
    assert_eq!(
        sized(Some("many")).unwrap_err().message(),
        "blob declaration found non-integer size in note_photos: \"many\""
    );
    assert_eq!(
        sized(Some("-1")).unwrap_err().message(),
        "blob declaration found invalid size in note_photos: -1"
    );
    assert_eq!(sized(None).unwrap().unwrap().1, None);
    assert_eq!(declared_size("t", Some(5)).unwrap(), Some(5));
    assert_eq!(declared_size("t", None).unwrap(), None);
    assert!(declared_size("t", Some(-5)).is_err());
}

#[test]
fn integers_are_read_within_their_range() {
    assert_eq!(parse_integer("42"), Some(42));
    assert_eq!(parse_integer("+7"), Some(7));
    assert_eq!(parse_integer("-9223372036854775808"), Some(i64::MIN));
    assert_eq!(parse_integer("9223372036854775808"), None);
    assert_eq!(parse_integer(""), None);
    assert_eq!(parse_integer("-"), None);
    assert_eq!(parse_integer(" 1"), None);
}

#[test]
fn tables_are_found_by_name_and_by_namespace() {
    let decls = decls();
    assert!(decls.table("note_photos").is_some());
    assert!(decls.table("notes").is_none());
    assert_eq!(decls.table_for_namespace("photos").unwrap().0, "note_photos");
    assert!(decls.table_for_namespace("covers").is_none());
    assert_eq!(decls.declared_tables().len(), 1);
    let broken = BlobDecls::from_tables(
        &vec![Err("locked".to_string())],
        &vec![synced("note_photos", Some(decl(None)))],
    );
    assert_eq!(
        broken.unwrap_err().message(),
        "blob declaration schema read failed: locked"
    );
    assert_eq!(
        BlobDeclError::ChangesetWalkMismatch { old_count: 1, new_count: 2 }.message(),
        "blob declaration changeset walk mismatch: old=1, new=2"
    );
    assert_eq!(
        BlobDeclError::Gate("cycle".to_string()).message(),
        "blob declaration FK walk failed: cycle"
    );
}

#[test]
fn statements_quote_every_name() {
    assert_eq!(all_rows_sql("note_photos"), "SELECT * FROM \"note_photos\"");
    assert_eq!(row_sql("a\"b"), "SELECT * FROM \"a\"\"b\" WHERE id = ?1");
    assert_eq!(column_on_row_sql("size", "t"), "SELECT \"size\" FROM \"t\" WHERE id = ?1");
    let decls = decls();
    let blob = decls.table("note_photos").unwrap();
    assert_eq!(
        blob.pk_carrying_blob_sql("note_photos"),
        "SELECT id FROM \"note_photos\" WHERE \"id\" = ?1"
    );
    assert_eq!(
        blob.column_carrying_blob_sql("note_photos", "hash"),
        "SELECT \"hash\" FROM \"note_photos\" WHERE \"id\" = ?1"
    );
    let (insert, update) = cleanup_guards("note_photos", blob, "'photos'");
    assert_eq!(
        insert,
        "CREATE TEMP TRIGGER \"coven_cleanup_guard_insert_note_photos\" BEFORE INSERT ON main.\"note_photos\" WHEN NEW.\"id\" IS NOT NULL AND EXISTS (SELECT 1 FROM local_cleanup_intents WHERE namespace = 'photos' AND blob_id = NEW.\"id\"AND content_hash = NEW.\"hash\") BEGIN SELECT RAISE(ABORT, 'blob local cleanup in progress'); END;"
    );
    assert!(update.contains("BEFORE UPDATE OF \"id\", \"hash\" ON main.\"note_photos\""));
}

#[test]
fn cloud_keys_are_taken_apart() {
    let generation = "ab".repeat(32);
    let key = format!("photos/.coven-generations/up1/{generation}/photoaaa/cv/photo.jpg");
    assert_eq!(
        plain_blob_key_parts(&key),
        Some(("photos".to_string(), "photoaaa".to_string()))
    );
    assert_eq!(plain_blob_key_parts("photos/photoaaa"), None);
    assert_eq!(
        plain_blob_key_parts(&format!("photos/.coven-generations/up1/{generation}/photoaaa/cv//x")),
        None
    );
    assert_eq!(
        plain_blob_key_parts("photos/.coven-generations/up1/short/photoaaa/cv"),
        None
    );
    let generated = || GeneratedBlobKey {
        namespace: "covers".to_string(),
        uploader: "up1".to_string(),
        id: "coverrrr".to_string(),
        generation: "ab".repeat(32),
    };
    assert_eq!(
        hashed_blob_key_parts(Some(generated())),
        Some(("covers".to_string(), "coverrrr".to_string()))
    );
    assert_eq!(
        blob_cloud_key_parts(Some(generated()), &key),
        Some(("covers".to_string(), "coverrrr".to_string()))
    );
    assert_eq!(
        blob_cloud_key_parts(None, &key),
        Some(("photos".to_string(), "photoaaa".to_string()))
    );
}

#[test]
fn the_first_table_of_a_name_has_the_say() {
    let mut gated = synced("notes", None);
    gated.gate_column = Some("shared".to_string());
    let mut root = synced("profile", None);
    root.remote_root = true;
    let tables = vec![gated, synced("notes", None), root];
    assert_eq!(gate_column(&tables, "notes").map(String::as_str), Some("shared"));
    assert_eq!(gate_column(&tables, "profile"), None);
    assert!(is_remote_root(&tables, "profile"));
    assert!(!is_remote_root(&tables, "notes"));
}
