# coven_core

The decisions of a local-first blob engine, written in Rust and proved with Verus.

A blob is opaque bytes that a database row refers to. It is local (a user's own file, or a
file in the local store) or remote (an exact object in the cloud, with copies in this
device's cache). The engine moves blobs between the two, serves them, and deletes what is
no longer needed, so that no step loses the only copy.

## Layout

- `src/` is the library. It decides; it performs no I/O. Each longer operation is a small
  machine: its step names the one thing to do next, and `next` takes what that came to. The
  contract of `next` is the machine's `follows` relation, and the laws about whole runs are
  public proof functions beside it, named `law_..`.
  - `blob/locator.rs`: the canonical locator of a stored blob.
  - `blob/upload.rs`, `blob/upload_queue.rs`, `blob/transition.rs`, `blob/make_local.rs`:
    uploads, how they are queued, and the two transitions of a root.
  - `blob/delete.rs`: tombstones and reclaiming.
  - `blob/cache.rs`, `blob/access.rs`, `blob/evict.rs`, `blob/local_files.rs`: serving blobs
    from this device.
  - `blob/local_cleanup.rs`: obsolete copies.
  - `blob/decl.rs`, `session.rs`: which rows carry blobs.
  - `database.rs`: rules on the host's SQL, the keys of the database's state, and setting
    up a store from a snapshot.
  - `digest.rs`, `json.rs`, `clock.rs`, `text.rs`, `hlc.rs`, `store_dir.rs`, `storage.rs`,
    `outbox.rs`: the vocabulary.
- `tests/` runs the library on concrete values.
- `app/` is the asynchronous shell: files, the cloud, the database and the host's observer.

## What is trusted

The calls into `sha2`, `hex`, `serde_json`, `chrono` and a few functions of std stand behind
small wrappers. Each has a doc comment that says what is claimed of the call.
