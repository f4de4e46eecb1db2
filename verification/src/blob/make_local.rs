//! Making a remote root local again.
//!
//! Every blob is brought back first: read from the cache or the cloud, written to its
//! local home without replacing anything, and made durable. Only when all of them are
//! durable does one transaction turn its gate off, register the users' files and queue
//! the deletion of the cloud objects. A cancellation, or any failure before that
//! transaction, removes every file that was published and leaves the root remote. Once
//! the transaction has begun, a failure removes only what stands in the local store: a
//! path of the user's may be in other hands by then, so it stays and is reported.

use vstd::prelude::*;
use vstd::string::*;

use crate::blob::transition::{root_text, same_rows, rows_are_same, root_words};
use crate::blob::Provenance;
use crate::database::{DbError, DbErrorView};
use crate::digest::ObjectHash;
use crate::outbox::{RowBlobAuthority, RowBlobRef};
use crate::session::{declares_remote_root, gate_column, gate_of, is_remote_root, quote_ident, quoted_ident, SyncedTable};
use crate::store_dir::{first_fault, local_path_text, texts, StoreDir};
use crate::text::{debug_quote, debug_text, decimal, decimal_text, same_text};

verus! {

/// Why a root could not be made local.
#[derive(Debug)]
pub enum MakeLocalError {
    SyncNotReady,
    NotGated(String),
    RemoteRoot(String),
    AlreadyLocal(String, String),
    UnresolvedLocality(String, String),
    MissingDest(String),
    NonUtf8Dest { blob_id: String, path: String },
    Read(String, String),
    Write { blob_id: String, path: String, detail: String },
    Cancelled,
    Cleanup { path: String, detail: String },
    /// It failed for this reason, and these published files of the user's stay.
    PartialMaterialization { retained_paths: Vec<String>, detail: String },
    Db(DbError),
}

/// What a [`MakeLocalError`] says.
pub ghost enum MakeLocalErrorView {
    SyncNotReady,
    NotGated(Seq<char>),
    RemoteRoot(Seq<char>),
    AlreadyLocal(Seq<char>, Seq<char>),
    UnresolvedLocality(Seq<char>, Seq<char>),
    MissingDest(Seq<char>),
    NonUtf8Dest { blob_id: Seq<char>, path: Seq<char> },
    Read(Seq<char>, Seq<char>),
    Write { blob_id: Seq<char>, path: Seq<char>, detail: Seq<char> },
    Cancelled,
    Cleanup { path: Seq<char>, detail: Seq<char> },
    PartialMaterialization { retained_paths: Seq<Seq<char>>, detail: Seq<char> },
    Db(DbErrorView),
}

impl View for MakeLocalError {
    type V = MakeLocalErrorView;

    open spec fn view(&self) -> MakeLocalErrorView {
        match self {
            MakeLocalError::SyncNotReady => MakeLocalErrorView::SyncNotReady,
            MakeLocalError::NotGated(table) => MakeLocalErrorView::NotGated(table@),
            MakeLocalError::RemoteRoot(table) => MakeLocalErrorView::RemoteRoot(table@),
            MakeLocalError::AlreadyLocal(table, id) => MakeLocalErrorView::AlreadyLocal(table@, id@),
            MakeLocalError::UnresolvedLocality(table, id) => {
                MakeLocalErrorView::UnresolvedLocality(table@, id@)
            },
            MakeLocalError::MissingDest(id) => MakeLocalErrorView::MissingDest(id@),
            MakeLocalError::NonUtf8Dest { blob_id, path } => MakeLocalErrorView::NonUtf8Dest {
                blob_id: blob_id@,
                path: path@,
            },
            MakeLocalError::Read(id, detail) => MakeLocalErrorView::Read(id@, detail@),
            MakeLocalError::Write { blob_id, path, detail } => MakeLocalErrorView::Write {
                blob_id: blob_id@,
                path: path@,
                detail: detail@,
            },
            MakeLocalError::Cancelled => MakeLocalErrorView::Cancelled,
            MakeLocalError::Cleanup { path, detail } => MakeLocalErrorView::Cleanup {
                path: path@,
                detail: detail@,
            },
            MakeLocalError::PartialMaterialization { retained_paths, detail } => {
                MakeLocalErrorView::PartialMaterialization {
                    retained_paths: texts(retained_paths@),
                    detail: detail@,
                }
            },
            MakeLocalError::Db(error) => MakeLocalErrorView::Db(error@),
        }
    }
}

impl MakeLocalErrorView {
    /// The error in words.
    pub open spec fn message_text(self) -> Seq<char> {
        match self {
            MakeLocalErrorView::SyncNotReady => {
                "sync is not running, so a transition cannot start"@
            },
            MakeLocalErrorView::NotGated(table) => "table "@ + debug_text(table)
                + " is not a gated root, so it has no Local/Remote state"@,
            MakeLocalErrorView::RemoteRoot(table) => "table "@ + debug_text(table)
                + " is a remote root, so its blobs have no Local state"@,
            MakeLocalErrorView::AlreadyLocal(table, id) => root_text(table, id)
                + " is already Local, so make_local has nothing to do"@,
            MakeLocalErrorView::UnresolvedLocality(table, id) => root_text(table, id)
                + " has no resolvable Local/Remote state (row absent or gate NULL)"@,
            MakeLocalErrorView::MissingDest(id) => {
                "no destination path supplied for user-provided blob "@ + debug_text(id)
            },
            MakeLocalErrorView::NonUtf8Dest { blob_id, path } => {
                "destination path for user-provided blob "@ + debug_text(blob_id)
                    + " is not valid UTF-8: "@ + path
            },
            MakeLocalErrorView::Read(id, detail) => "read blob "@ + debug_text(id)
                + " to materialize: "@ + detail,
            MakeLocalErrorView::Write { blob_id, path, detail } => "write materialized blob "@
                + debug_text(blob_id) + " to "@ + path + ": "@ + detail,
            MakeLocalErrorView::Cancelled => {
                "make_local cancelled before the commit; the release stays Remote"@
            },
            MakeLocalErrorView::Cleanup { path, detail } => {
                "could not roll back materialized file at "@ + path + ": "@ + detail
            },
            MakeLocalErrorView::PartialMaterialization { retained_paths, detail } => {
                "make_local failed and published files stay in place: "@ + detail
            },
            MakeLocalErrorView::Db(error) => "database error: "@ + error.message_text(),
        }
    }
}

impl MakeLocalError {
    /// The error in words.
    pub fn message(&self) -> (text: String)
        ensures
            text@ == self@.message_text(),
    {
        match self {
            MakeLocalError::SyncNotReady => "sync is not running, so a transition cannot start".to_owned(),
            MakeLocalError::NotGated(table) => "table ".to_owned().concat(
                debug_quote(table.as_str()).as_str(),
            ).concat(" is not a gated root, so it has no Local/Remote state"),
            MakeLocalError::RemoteRoot(table) => "table ".to_owned().concat(
                debug_quote(table.as_str()).as_str(),
            ).concat(" is a remote root, so its blobs have no Local state"),
            MakeLocalError::AlreadyLocal(table, id) => root_words(
                table.as_str(),
                id.as_str(),
            ).concat(" is already Local, so make_local has nothing to do"),
            MakeLocalError::UnresolvedLocality(table, id) => root_words(
                table.as_str(),
                id.as_str(),
            ).concat(" has no resolvable Local/Remote state (row absent or gate NULL)"),
            MakeLocalError::MissingDest(id) => "no destination path supplied for user-provided blob ".to_owned().concat(
                debug_quote(id.as_str()).as_str(),
            ),
            MakeLocalError::NonUtf8Dest { blob_id, path } => "destination path for user-provided blob ".to_owned().concat(
                debug_quote(blob_id.as_str()).as_str(),
            ).concat(" is not valid UTF-8: ").concat(path.as_str()),
            MakeLocalError::Read(id, detail) => "read blob ".to_owned().concat(
                debug_quote(id.as_str()).as_str(),
            ).concat(" to materialize: ").concat(detail.as_str()),
            MakeLocalError::Write { blob_id, path, detail } => "write materialized blob ".to_owned().concat(
                debug_quote(blob_id.as_str()).as_str(),
            ).concat(" to ").concat(path.as_str()).concat(": ").concat(detail.as_str()),
            MakeLocalError::Cancelled => "make_local cancelled before the commit; the release stays Remote".to_owned(),
            MakeLocalError::Cleanup { path, detail } => "could not roll back materialized file at ".to_owned().concat(
                path.as_str(),
            ).concat(": ").concat(detail.as_str()),
            MakeLocalError::PartialMaterialization { retained_paths, detail } => {
                "make_local failed and published files stay in place: ".to_owned().concat(
                    detail.as_str(),
                )
            },
            MakeLocalError::Db(error) => "database error: ".to_owned().concat(
                error.message().as_str(),
            ),
        }
    }
}

/// Where a user wants a blob's file.
#[derive(Debug)]
pub enum DestPath {
    /// At this path.
    Utf8(String),
    /// At a path that is no UTF-8 text and reads about like this; it cannot be registered.
    NotUtf8(String),
}

/// A file that a transition published.
#[derive(Debug)]
pub enum WrittenFile {
    /// At the path that the user chose.
    User(String),
    /// In the store's own folder for local blobs.
    LocalStore(String),
}

impl WrittenFile {
    /// Where the file is.
    pub open spec fn path(self) -> String {
        match self {
            WrittenFile::User(path) => path,
            WrittenFile::LocalStore(path) => path,
        }
    }
}

/// Where the published files are.
pub open spec fn all_files(written: Seq<WrittenFile>) -> Seq<String> {
    written.map_values(|file: WrittenFile| file.path())
}

/// Those of them at paths of the user's.
pub open spec fn user_files(written: Seq<WrittenFile>) -> Seq<String>
    decreases written.len(),
{
    if written.len() == 0 {
        seq![]
    } else {
        let before = user_files(written.drop_last());
        match written.last() {
            WrittenFile::User(path) => before.push(path),
            WrittenFile::LocalStore(_) => before,
        }
    }
}

/// Those of them in the local store.
pub open spec fn store_files(written: Seq<WrittenFile>) -> Seq<String>
    decreases written.len(),
{
    if written.len() == 0 {
        seq![]
    } else {
        let before = store_files(written.drop_last());
        match written.last() {
            WrittenFile::User(_) => before,
            WrittenFile::LocalStore(path) => before.push(path),
        }
    }
}

fn list_files(written: &Vec<WrittenFile>) -> (files: Vec<String>)
    ensures
        files@ == all_files(written@),
{
    let mut files: Vec<String> = Vec::new();
    let mut i: usize = 0;
    while i < written.len()
        invariant
            i <= written.len(),
            files@ == all_files(written@.take(i as int)),
        decreases written.len() - i,
    {
        match &written[i] {
            WrittenFile::User(path) => files.push(path.clone()),
            WrittenFile::LocalStore(path) => files.push(path.clone()),
        }
        assert(files@ =~= all_files(written@.take(i + 1)));
        i = i + 1;
    }
    assert(written@.take(i as int) =~= written@);
    files
}

/// The user's published files, and those in the local store.
fn split_files(written: &Vec<WrittenFile>) -> (files: (Vec<String>, Vec<String>))
    ensures
        files.0@ == user_files(written@),
        files.1@ == store_files(written@),
{
    let mut users: Vec<String> = Vec::new();
    let mut stores: Vec<String> = Vec::new();
    let mut i: usize = 0;
    assert(written@.take(0) =~= seq![]);
    while i < written.len()
        invariant
            i <= written.len(),
            users@ == user_files(written@.take(i as int)),
            stores@ == store_files(written@.take(i as int)),
        decreases written.len() - i,
    {
        assert(written@.take(i + 1).drop_last() =~= written@.take(i as int));
        match &written[i] {
            WrittenFile::User(path) => users.push(path.clone()),
            WrittenFile::LocalStore(path) => stores.push(path.clone()),
        }
        i = i + 1;
    }
    assert(written@.take(i as int) =~= written@);
    (users, stores)
}

/// Whether this path is one of the user's that were published.
pub open spec fn is_published(written: Seq<WrittenFile>, path: Seq<char>) -> bool {
    exists|i: int| 0 <= i < written.len() && (#[trigger] written[i]) is User && written[i].path()@ == path
}

fn was_published(written: &Vec<WrittenFile>, path: &str) -> (published: bool)
    ensures
        published == is_published(written@, path@),
{
    let mut i: usize = 0;
    while i < written.len()
        invariant
            i <= written.len(),
            forall|j: int|
                0 <= j < i ==> !((#[trigger] written@[j]) is User && written@[j].path()@ == path@),
        decreases written.len() - i,
    {
        match &written[i] {
            WrittenFile::User(file) => {
                if same_text(file.as_str(), path) {
                    assert(written@[i as int] is User && written@[i as int].path()@ == path@);
                    return true;
                }
            },
            WrittenFile::LocalStore(_) => {},
        }
        i = i + 1;
    }
    false
}

/// What publishing a staged file without replacing anything came to.
#[derive(Debug)]
pub enum PublishReply {
    /// The file is there now.
    Published,
    /// Another file was there already.
    DestinationExists(String),
    /// It could not be published.
    Failed(String),
}

/// The operation that making a root local performs next. The steps from `RecheckRows` to
/// `CommitWrite` run in one transaction, which only a successful `CommitWrite` commits.
#[derive(Debug)]
pub enum MakeLocalStep {
    /// Read whether the root is remote.
    ReadLocality,
    /// Read the blob-bearing rows below the root.
    ReadRows,
    /// Ask whether the user cancelled, before the next row.
    CheckCancel,
    /// Create the folder of the next row's file.
    PrepareParent { path: String },
    /// Bring the next row's plaintext beside its path.
    Stage { path: String },
    /// Publish the staged file at its path, replacing nothing.
    Publish { path: String },
    /// Measure the file that stands in the local store already.
    MeasureExisting { path: String },
    /// Measure the length of the file at its path.
    MeasureLength { path: String },
    /// Make the file's folder entry durable.
    SyncParent { path: String },
    /// Tell observers how many blobs are back.
    NotifyProgress { done: usize, total: usize },
    /// Ask whether the user cancelled, behind the last row.
    CheckCancelLast,
    /// Take the stamp of the write.
    TakeStamp,
    /// Read the rows again.
    RecheckRows,
    /// Flip the root's gate off.
    FlipGate,
    /// Give this row the write's stamp, where it still has its old one.
    Restamp { row: usize },
    /// Read the rows as they are now.
    RereadRows,
    /// Register the user's file of this row.
    RegisterExternal { row: usize },
    /// Queue the deletion of this row's cloud object.
    EnqueueDelete { row: usize },
    /// Commit the write.
    CommitWrite,
    /// Tell observers that the root is local.
    NotifyMadeLocal,
    /// The root is local.
    Done,
    /// Remove these published files, from this one on, then fail.
    RollBack { paths: Vec<String>, index: usize, error: MakeLocalError },
    /// The root stays remote.
    Failed { error: MakeLocalError },
}

/// What the operation answered.
#[derive(Debug)]
pub enum MakeLocalReply {
    Done,
    Locality(Result<Option<bool>, DbError>),
    Rows(Result<Vec<RowBlobRef>, DbError>),
    Cancelled(bool),
    Local(Result<(), String>),
    Published(PublishReply),
    Facts(Result<(u64, ObjectHash), String>),
    Length(Result<u64, String>),
    Stamp(String),
    Db(Result<(), DbError>),
    Updated(Result<usize, DbError>),
}

/// A root on its way to being local.
#[derive(Debug)]
pub struct MakeLocal {
    /// Where this device keeps its files.
    pub store_dir: StoreDir,
    pub root_table: String,
    pub root_id: String,
    /// The column that says whether the root is remote.
    pub gate_column: String,
    /// Where the user wants the files, by blob id.
    pub dest: Vec<(String, DestPath)>,
    /// The blob-bearing rows below the root.
    pub rows: Vec<RowBlobRef>,
    /// For each row that is back: the user's path of its file, if it is the user's.
    pub homes: Vec<Option<String>>,
    /// The files that were published so far.
    pub written: Vec<WrittenFile>,
    /// The stamp of the write.
    pub stamp: String,
    /// The rows as the write leaves them.
    pub local: Vec<RowBlobRef>,
    /// What to perform next.
    pub step: MakeLocalStep,
}

/// Where the user wants the file of a blob.
pub open spec fn dest_of(dest: Seq<(String, DestPath)>, id: Seq<char>) -> Option<DestPath>
    decreases dest.len(),
{
    if dest.len() == 0 {
        None
    } else if dest[0].0@ == id {
        Some(dest[0].1)
    } else {
        dest_of(dest.skip(1), id)
    }
}

/// The first destination that is no UTF-8 text.
pub open spec fn bad_dest(dest: Seq<(String, DestPath)>) -> Option<MakeLocalErrorView>
    decreases dest.len(),
{
    if dest.len() == 0 {
        None
    } else {
        match dest[0].1 {
            DestPath::NotUtf8(path) => Some(
                MakeLocalErrorView::NonUtf8Dest { blob_id: dest[0].0@, path: path@ },
            ),
            DestPath::Utf8(_) => bad_dest(dest.skip(1)),
        }
    }
}

fn find_dest<'a>(dest: &'a Vec<(String, DestPath)>, id: &str) -> (found: Option<&'a DestPath>)
    ensures
        match found {
            Some(path) => dest_of(dest@, id@) == Some(*path),
            None => dest_of(dest@, id@) is None,
        },
{
    let mut i: usize = 0;
    assert(dest@.skip(0) =~= dest@);
    while i < dest.len()
        invariant
            i <= dest.len(),
            dest_of(dest@, id@) == dest_of(dest@.skip(i as int), id@),
        decreases dest.len() - i,
    {
        assert(dest@.skip(i as int)[0] == dest@[i as int]);
        assert(dest@.skip(i as int).skip(1) =~= dest@.skip(i + 1));
        if same_text(dest[i].0.as_str(), id) {
            return Some(&dest[i].1);
        }
        i = i + 1;
    }
    None
}

fn find_bad_dest(dest: &Vec<(String, DestPath)>) -> (found: Option<MakeLocalError>)
    ensures
        match found {
            Some(error) => bad_dest(dest@) == Some(error@),
            None => bad_dest(dest@) is None,
        },
{
    let mut i: usize = 0;
    assert(dest@.skip(0) =~= dest@);
    while i < dest.len()
        invariant
            i <= dest.len(),
            bad_dest(dest@) == bad_dest(dest@.skip(i as int)),
        decreases dest.len() - i,
    {
        assert(dest@.skip(i as int)[0] == dest@[i as int]);
        assert(dest@.skip(i as int).skip(1) =~= dest@.skip(i + 1));
        match &dest[i].1 {
            DestPath::NotUtf8(path) => return Some(
                MakeLocalError::NonUtf8Dest { blob_id: dest[i].0.clone(), path: path.clone() },
            ),
            DestPath::Utf8(_) => {},
        }
        i = i + 1;
    }
    None
}

/// Every row is remote and has a stored object.
pub open spec fn all_remote(rows: Seq<RowBlobRef>) -> bool {
    forall|i: int|
        0 <= i < rows.len() ==> (#[trigger] rows[i]).authority is Remote && rows[i].stored is Some
}

fn rows_are_remote(rows: &Vec<RowBlobRef>) -> (remote: bool)
    ensures
        remote == all_remote(rows@),
{
    let mut i: usize = 0;
    while i < rows.len()
        invariant
            i <= rows.len(),
            forall|j: int|
                0 <= j < i ==> (#[trigger] rows@[j]).authority is Remote && rows@[j].stored is Some,
        decreases rows.len() - i,
    {
        let is_remote: bool = match rows[i].authority {
            RowBlobAuthority::Remote(_) => true,
            _ => false,
        };
        if !is_remote || rows[i].stored.is_none() {
            assert(!(rows@[i as int].authority is Remote && rows@[i as int].stored is Some));
            return false;
        }
        i = i + 1;
    }
    true
}

/// A row that a local transition leaves as it must: the same blob under the write's
/// stamp, local and without an object.
pub open spec fn is_local_version(remote: RowBlobRef, local: RowBlobRef, stamp: Seq<char>) -> bool {
    &&& local.table@ == remote.table@
    &&& local.row_id@ == remote.row_id@
    &&& local.column@ == remote.column@
    &&& local.row_stamp@ == stamp
    &&& local.blob@ == remote.blob@
    &&& local.plaintext_size == remote.plaintext_size
    &&& local.plaintext_hash == remote.plaintext_hash
    &&& local.authority == RowBlobAuthority::Local
    &&& local.stored is None
}

fn local_version(remote: &RowBlobRef, local: &RowBlobRef, stamp: &str) -> (fits: bool)
    ensures
        fits == is_local_version(*remote, *local, stamp@),
{
    local.table == remote.table && local.row_id == remote.row_id && local.column == remote.column
        && same_text(local.row_stamp.as_str(), stamp) && local.blob.same(&remote.blob)
        && local.plaintext_size == remote.plaintext_size && local.plaintext_hash.same(
        &remote.plaintext_hash,
    ) && local.authority.same(&RowBlobAuthority::Local) && local.stored.is_none()
}

/// The statement that gives a row of `table` the write's stamp where it still has its old
/// one. Its parameters are the new stamp, the row's id and the old stamp.
pub fn restamp_sql(table: &str) -> (sql: String)
    ensures
        sql@ == "UPDATE "@ + quoted_ident(table@)
            + " SET _updated_at = ?1 WHERE id = ?2 AND _updated_at = ?3"@,
{
    "UPDATE ".to_owned().concat(quote_ident(table).as_str()).concat(
        " SET _updated_at = ?1 WHERE id = ?2 AND _updated_at = ?3",
    )
}

/// The first row from `from` on that must be given the write's stamp; the root row has it
/// from its gate.
pub open spec fn restamp_from(
    rows: Seq<RowBlobRef>,
    root_table: Seq<char>,
    root_id: Seq<char>,
    from: int,
) -> int
    decreases rows.len() - from,
{
    if 0 <= from < rows.len() && rows[from].table@ == root_table && rows[from].row_id@ == root_id {
        restamp_from(rows, root_table, root_id, from + 1)
    } else {
        from
    }
}

impl MakeLocal {
    /// The same transition at another step.
    pub open spec fn at(self, step: MakeLocalStep) -> MakeLocal {
        MakeLocal { step, ..self }
    }

    /// The step that ends the transition with this error once these files are removed.
    pub open spec fn fails_without(
        self,
        files: Seq<String>,
        error: MakeLocalErrorView,
        step: MakeLocalStep,
    ) -> bool {
        if files.len() == 0 {
            step matches MakeLocalStep::Failed { error: e } && e@ == error
        } else {
            step matches MakeLocalStep::RollBack { paths, index, error: e } && paths@ == files
                && index == 0 && e@ == error
        }
    }

    /// How the transition ends with this error before its write has begun: every published
    /// file is removed first.
    pub open spec fn aborts(self, error: MakeLocalErrorView, step: MakeLocalStep) -> bool {
        self.fails_without(all_files(self.written@), error, step)
    }

    /// The error where the user's published files stay, if there are any.
    pub open spec fn keeping_users_files(self, error: MakeLocalErrorView) -> MakeLocalErrorView {
        let kept = user_files(self.written@);
        if kept.len() == 0 {
            error
        } else {
            MakeLocalErrorView::PartialMaterialization {
                retained_paths: texts(kept),
                detail: error.message_text(),
            }
        }
    }

    /// How the transition ends with this error once its write has begun, or where a path of
    /// the user's would get two blobs: what it published in the local store is removed
    /// first, and the user's files stay.
    pub open spec fn aborts_keeping(self, error: MakeLocalErrorView, step: MakeLocalStep) -> bool {
        self.fails_without(
            store_files(self.written@),
            self.keeping_users_files(error),
            step,
        )
    }

    /// Whether a row is being brought back.
    pub open spec fn working(self) -> bool {
        self.homes@.len() < self.rows@.len()
    }

    /// The row that is being brought back.
    pub open spec fn row(self) -> RowBlobRef {
        self.rows@[self.homes@.len() as int]
    }

    /// The error of a failed write of that row.
    pub open spec fn write_error(self, path: Seq<char>, detail: Seq<char>) -> MakeLocalErrorView {
        MakeLocalErrorView::Write { blob_id: self.row().blob.id@, path, detail }
    }

    /// How the next row is begun, where the user did not cancel.
    pub open spec fn begins_row(self, step: MakeLocalStep) -> bool {
        let row = self.row();
        if row.stored is None {
            self.aborts(
                MakeLocalErrorView::Read(
                    row.blob.id@,
                    "remote row has no exact stored blob reference"@,
                ),
                step,
            )
        } else {
            match row.blob.provenance {
                Provenance::UserProvided => match dest_of(self.dest@, row.blob.id@) {
                    None => self.aborts(MakeLocalErrorView::MissingDest(row.blob.id@), step),
                    Some(DestPath::NotUtf8(path)) => self.aborts(
                        MakeLocalErrorView::NonUtf8Dest { blob_id: row.blob.id@, path: path@ },
                        step,
                    ),
                    Some(DestPath::Utf8(path)) => step == (MakeLocalStep::PrepareParent { path }),
                },
                Provenance::HostProvided => match first_fault(
                    seq![row.blob.namespace@, row.blob.id@],
                ) {
                    Some(fault) => self.aborts(
                        self.write_error(
                            "local/"@ + row.blob.namespace@ + "/"@ + row.blob.id@,
                            fault.message_text(),
                        ),
                        step,
                    ),
                    None => step matches MakeLocalStep::Stage { path } && path@ == local_path_text(
                        self.store_dir@,
                        row.blob.namespace@,
                        row.blob.id@,
                    ),
                },
            }
        }
    }

    /// What comes once `count` rows are back.
    pub open spec fn row_or_last(self, count: int) -> MakeLocalStep {
        if count < self.rows@.len() {
            MakeLocalStep::CheckCancel
        } else {
            MakeLocalStep::CheckCancelLast
        }
    }

    /// The message for rows that changed meanwhile.
    pub open spec fn changed_error(self) -> MakeLocalErrorView {
        MakeLocalErrorView::Db(
            DbErrorView::Message(
                "make_local root "@ + debug_text(self.root_table@) + "/"@ + debug_text(
                    self.root_id@,
                ) + " changed while its blobs were materialized"@,
            ),
        )
    }

    /// What comes after the rows below `from` have the write's stamp.
    pub open spec fn restamps(self, from: int) -> MakeLocalStep {
        let row = restamp_from(self.rows@, self.root_table@, self.root_id@, from);
        if row < self.rows@.len() {
            MakeLocalStep::Restamp { row: row as usize }
        } else {
            MakeLocalStep::RereadRows
        }
    }

    /// What comes for row `k` of the write's rows: it is checked, a user's file is
    /// registered, and its cloud object is queued for deletion; behind the last row the
    /// write is committed.
    pub open spec fn binds(self, k: int, step: MakeLocalStep) -> bool {
        if k >= self.rows@.len() || k >= self.local@.len() || k >= self.homes@.len() {
            step is CommitWrite
        } else {
            let row = self.rows@[k];
            if !is_local_version(row, self.local@[k], self.stamp@) {
                self.aborts_keeping(
                    MakeLocalErrorView::Db(
                        DbErrorView::Message(
                            "make_local row "@ + debug_text(row.table@) + "/"@ + debug_text(
                                row.row_id@,
                            ) + "/"@ + debug_text(row.column@)
                                + " changed while its blob was materialized"@,
                        ),
                    ),
                    step,
                )
            } else if self.homes@[k] is Some {
                step == (MakeLocalStep::RegisterExternal { row: k as usize })
            } else {
                step == (MakeLocalStep::EnqueueDelete { row: k as usize })
            }
        }
    }

    /// What follows on each reply. A reply that does not answer the step changes nothing.
    pub open spec fn follows(self, reply: MakeLocalReply, next: MakeLocal) -> bool {
        match (self.step, reply) {
            (MakeLocalStep::ReadLocality, MakeLocalReply::Locality(locality)) => {
                &&& next == self.at(next.step)
                &&& match locality {
                    Err(error) => self.aborts(MakeLocalErrorView::Db(error@), next.step),
                    Ok(Some(true)) => next.step is ReadRows,
                    Ok(Some(false)) => self.aborts(
                        MakeLocalErrorView::AlreadyLocal(self.root_table@, self.root_id@),
                        next.step,
                    ),
                    Ok(None) => self.aborts(
                        MakeLocalErrorView::UnresolvedLocality(self.root_table@, self.root_id@),
                        next.step,
                    ),
                }
            },
            (MakeLocalStep::ReadRows, MakeLocalReply::Rows(Err(error))) => {
                &&& next == self.at(next.step)
                &&& self.aborts(MakeLocalErrorView::Db(error@), next.step)
            },
            (MakeLocalStep::ReadRows, MakeLocalReply::Rows(Ok(rows))) => {
                &&& next == (MakeLocal { rows: next.rows, homes: next.homes, ..self }).at(next.step)
                &&& next.rows == rows
                &&& next.homes@.len() == 0
                &&& if !all_remote(rows@) {
                    self.aborts(
                        MakeLocalErrorView::UnresolvedLocality(self.root_table@, self.root_id@),
                        next.step,
                    )
                } else {
                    match bad_dest(self.dest@) {
                        Some(error) => self.aborts(error, next.step),
                        None => next.step == next.row_or_last(0),
                    }
                }
            },
            (MakeLocalStep::CheckCancel, MakeLocalReply::Cancelled(cancelled)) if self.working() => {
                &&& next == self.at(next.step)
                &&& if cancelled {
                    self.aborts(MakeLocalErrorView::Cancelled, next.step)
                } else {
                    self.begins_row(next.step)
                }
            },
            (MakeLocalStep::PrepareParent { path }, MakeLocalReply::Local(prepared)) if self.working() => {
                &&& next == self.at(next.step)
                &&& match prepared {
                    Ok(_) => next.step == (MakeLocalStep::Stage { path }),
                    Err(detail) => self.aborts(self.write_error(path@, detail@), next.step),
                }
            },
            (MakeLocalStep::Stage { path }, MakeLocalReply::Local(staged)) if self.working() => {
                &&& next == self.at(next.step)
                &&& match staged {
                    Ok(_) => next.step == (MakeLocalStep::Publish { path }),
                    Err(detail) => self.aborts(
                        MakeLocalErrorView::Read(self.row().blob.id@, detail@),
                        next.step,
                    ),
                }
            },
            (MakeLocalStep::Publish { path }, MakeLocalReply::Published(published)) if self.working() => {
                match published {
                    PublishReply::Published => {
                        &&& next == (MakeLocal { written: next.written, ..self }).at(next.step)
                        &&& next.written@ == self.written@.push(
                            match self.row().blob.provenance {
                                Provenance::UserProvided => WrittenFile::User(path),
                                Provenance::HostProvided => WrittenFile::LocalStore(path),
                            },
                        )
                        &&& next.step == (MakeLocalStep::MeasureLength { path })
                    },
                    PublishReply::DestinationExists(detail) => {
                        &&& next == self.at(next.step)
                        &&& match self.row().blob.provenance {
                            Provenance::UserProvided => if is_published(self.written@, path@) {
                                self.aborts_keeping(self.write_error(path@, detail@), next.step)
                            } else {
                                self.aborts(self.write_error(path@, detail@), next.step)
                            },
                            Provenance::HostProvided => next.step == (
                            MakeLocalStep::MeasureExisting { path }),
                        }
                    },
                    PublishReply::Failed(detail) => {
                        &&& next == self.at(next.step)
                        &&& self.aborts(self.write_error(path@, detail@), next.step)
                    },
                }
            },
            (MakeLocalStep::MeasureExisting { path }, MakeLocalReply::Facts(facts)) if self.working() => {
                &&& next == self.at(next.step)
                &&& match facts {
                    Err(detail) => self.aborts(self.write_error(path@, detail@), next.step),
                    Ok((size, hash)) => if size != self.row().plaintext_size || hash
                        != self.row().plaintext_hash {
                        self.aborts(
                            self.write_error(
                                path@,
                                "existing local-store file differs from the exact remote blob"@,
                            ),
                            next.step,
                        )
                    } else {
                        next.step == (MakeLocalStep::MeasureLength { path })
                    },
                }
            },
            (MakeLocalStep::MeasureLength { path }, MakeLocalReply::Length(length)) if self.working() => {
                &&& next == self.at(next.step)
                &&& match length {
                    Err(detail) => self.aborts(self.write_error(path@, detail@), next.step),
                    Ok(length) => if length != self.row().plaintext_size {
                        self.aborts(
                            self.write_error(
                                path@,
                                "dest "@ + path@ + " is "@ + decimal(length as nat)
                                    + " bytes after materialize, expected "@ + decimal(
                                    self.row().plaintext_size as nat,
                                ),
                            ),
                            next.step,
                        )
                    } else {
                        next.step == (MakeLocalStep::SyncParent { path })
                    },
                }
            },
            (MakeLocalStep::SyncParent { path }, MakeLocalReply::Local(synced)) if self.working() => {
                match synced {
                    Err(detail) => {
                        &&& next == self.at(next.step)
                        &&& self.aborts(self.write_error(path@, detail@), next.step)
                    },
                    Ok(_) => {
                        &&& next == (MakeLocal { homes: next.homes, ..self }).at(next.step)
                        &&& next.homes@ == self.homes@.push(
                            match self.row().blob.provenance {
                                Provenance::UserProvided => Some(path),
                                Provenance::HostProvided => None,
                            },
                        )
                        &&& next.step matches MakeLocalStep::NotifyProgress { done, total } && done
                            == self.homes@.len() + 1 && total == self.rows@.len()
                    },
                }
            },
            (MakeLocalStep::NotifyProgress { .. }, MakeLocalReply::Done) => next == self.at(
                self.row_or_last(self.homes@.len() as int),
            ),
            (MakeLocalStep::CheckCancelLast, MakeLocalReply::Cancelled(cancelled)) => {
                &&& next == self.at(next.step)
                &&& if cancelled {
                    self.aborts(MakeLocalErrorView::Cancelled, next.step)
                } else {
                    next.step is TakeStamp
                }
            },
            (MakeLocalStep::TakeStamp, MakeLocalReply::Stamp(stamp)) => next == (MakeLocal {
                stamp,
                ..self
            }).at(MakeLocalStep::RecheckRows),
            (MakeLocalStep::RecheckRows, MakeLocalReply::Rows(rows)) => {
                &&& next == self.at(next.step)
                &&& match rows {
                    Err(error) => self.aborts_keeping(MakeLocalErrorView::Db(error@), next.step),
                    Ok(rows) => if same_rows(rows@, self.rows@) {
                        next.step is FlipGate
                    } else {
                        self.aborts_keeping(self.changed_error(), next.step)
                    },
                }
            },
            (MakeLocalStep::FlipGate, MakeLocalReply::Db(flipped)) => {
                &&& next == self.at(next.step)
                &&& match flipped {
                    Err(error) => self.aborts_keeping(MakeLocalErrorView::Db(error@), next.step),
                    Ok(_) => next.step == self.restamps(0),
                }
            },
            (MakeLocalStep::Restamp { row }, MakeLocalReply::Updated(updated)) if row
                < self.rows@.len() => {
                &&& next == self.at(next.step)
                &&& match updated {
                    Err(error) => self.aborts_keeping(MakeLocalErrorView::Db(error@), next.step),
                    Ok(count) => if count != 1 {
                        self.aborts_keeping(
                            MakeLocalErrorView::Db(
                                DbErrorView::Message(
                                    "make_local row "@ + debug_text(
                                        self.rows@[row as int].table@,
                                    ) + "/"@ + debug_text(self.rows@[row as int].row_id@)
                                        + " changed before restamping"@,
                                ),
                            ),
                            next.step,
                        )
                    } else {
                        next.step == self.restamps(row + 1)
                    },
                }
            },
            (MakeLocalStep::RereadRows, MakeLocalReply::Rows(rows)) => match rows {
                Err(error) => {
                    &&& next == self.at(next.step)
                    &&& self.aborts_keeping(MakeLocalErrorView::Db(error@), next.step)
                },
                Ok(rows) => {
                    &&& next == (MakeLocal { local: rows, ..self }).at(next.step)
                    &&& if rows@.len() != self.rows@.len() {
                        self.aborts_keeping(self.changed_error(), next.step)
                    } else {
                        next.binds(0, next.step)
                    }
                },
            },
            (MakeLocalStep::RegisterExternal { row }, MakeLocalReply::Db(registered)) => {
                &&& next == self.at(next.step)
                &&& match registered {
                    Err(error) => self.aborts_keeping(MakeLocalErrorView::Db(error@), next.step),
                    Ok(_) => next.step == (MakeLocalStep::EnqueueDelete { row }),
                }
            },
            (MakeLocalStep::EnqueueDelete { row }, MakeLocalReply::Db(queued)) => {
                &&& next == self.at(next.step)
                &&& match queued {
                    Err(error) => self.aborts_keeping(MakeLocalErrorView::Db(error@), next.step),
                    Ok(_) => self.binds(row + 1, next.step),
                }
            },
            (MakeLocalStep::CommitWrite, MakeLocalReply::Db(committed)) => {
                &&& next == self.at(next.step)
                &&& match committed {
                    Err(error) => self.aborts_keeping(MakeLocalErrorView::Db(error@), next.step),
                    Ok(_) => next.step is NotifyMadeLocal,
                }
            },
            (MakeLocalStep::NotifyMadeLocal, MakeLocalReply::Done) => next == self.at(
                MakeLocalStep::Done,
            ),
            (
                MakeLocalStep::RollBack { paths, index, error },
                MakeLocalReply::Local(removed),
            ) if index < paths@.len() => match removed {
                Err(detail) => {
                    &&& next == self.at(next.step)
                    &&& next.step matches MakeLocalStep::Failed { error: e } && e@ == (
                    MakeLocalErrorView::Cleanup {
                        path: paths@[index as int]@,
                        detail: detail@,
                    })
                },
                Ok(_) => next == self.at(
                    if index + 1 < paths@.len() {
                        MakeLocalStep::RollBack { paths, index: (index + 1) as usize, error }
                    } else {
                        MakeLocalStep::Failed { error }
                    },
                ),
            },
            _ => next == self,
        }
    }
}

impl MakeLocal {
    /// Starts making a root local; a store write that cannot be routed, and a table that
    /// is no gated root, are refused at once.
    pub fn start(
        tables: &Vec<SyncedTable>,
        routing: Result<(), DbError>,
        store_dir: StoreDir,
        root_table: String,
        root_id: String,
        dest: Vec<(String, DestPath)>,
    ) -> (started: Result<MakeLocal, MakeLocalError>)
        ensures
            match routing {
                Err(fault) => started == Err::<MakeLocal, MakeLocalError>(MakeLocalError::Db(fault)),
                Ok(_) => if declares_remote_root(tables@, root_table@) {
                    started matches Err(error) && error@ == MakeLocalErrorView::RemoteRoot(
                        root_table@,
                    )
                } else {
                    match gate_of(tables@, root_table@) {
                        None => started matches Err(error) && error@
                            == MakeLocalErrorView::NotGated(root_table@),
                        Some(column) => started matches Ok(transition) && {
                            &&& transition.store_dir == store_dir
                            &&& transition.root_table == root_table
                            &&& transition.root_id == root_id
                            &&& transition.gate_column@ == column
                            &&& transition.dest == dest
                            &&& transition.is_start()
                        },
                    }
                },
            },
    {
        match routing {
            Err(error) => return Err(MakeLocalError::Db(error)),
            Ok(_) => {},
        }
        if is_remote_root(tables, root_table.as_str()) {
            return Err(MakeLocalError::RemoteRoot(root_table));
        }
        let gate: String = match gate_column(tables, root_table.as_str()) {
            Some(column) => column.clone(),
            None => return Err(MakeLocalError::NotGated(root_table)),
        };
        Ok(
            MakeLocal {
                store_dir,
                root_table,
                root_id,
                gate_column: gate,
                dest,
                rows: Vec::new(),
                homes: Vec::new(),
                written: Vec::new(),
                stamp: String::new(),
                local: Vec::new(),
                step: MakeLocalStep::ReadLocality,
            },
        )
    }

    /// A transition that has just started.
    pub open spec fn is_start(self) -> bool {
        &&& self.step is ReadLocality
        &&& self.rows@.len() == 0
        &&& self.homes@.len() == 0
        &&& self.written@.len() == 0
        &&& self.local@.len() == 0
    }

    fn go(self, step: MakeLocalStep) -> (next: MakeLocal)
        ensures
            next == self.at(step),
    {
        MakeLocal { step, ..self }
    }

    fn abort_step(&self, error: MakeLocalError) -> (step: MakeLocalStep)
        ensures
            self.aborts(error@, step),
    {
        let paths: Vec<String> = list_files(&self.written);
        if paths.len() == 0 {
            MakeLocalStep::Failed { error }
        } else {
            MakeLocalStep::RollBack { paths, index: 0, error }
        }
    }

    fn abort_keeping_step(&self, error: MakeLocalError) -> (step: MakeLocalStep)
        ensures
            self.aborts_keeping(error@, step),
    {
        let (kept, paths) = split_files(&self.written);
        let error: MakeLocalError = if kept.len() == 0 {
            error
        } else {
            MakeLocalError::PartialMaterialization {
                retained_paths: kept,
                detail: error.message(),
            }
        };
        if paths.len() == 0 {
            MakeLocalStep::Failed { error }
        } else {
            MakeLocalStep::RollBack { paths, index: 0, error }
        }
    }

    fn abort_keeping(self, error: MakeLocalError) -> (next: MakeLocal)
        ensures
            next == self.at(next.step),
            self.aborts_keeping(error@, next.step),
    {
        let step = self.abort_keeping_step(error);
        self.go(step)
    }

    fn abort(self, error: MakeLocalError) -> (next: MakeLocal)
        ensures
            next == self.at(next.step),
            self.aborts(error@, next.step),
    {
        let step = self.abort_step(error);
        self.go(step)
    }

    fn write_failed(self, path: String, detail: String) -> (next: MakeLocal)
        requires
            self.working(),
        ensures
            next == self.at(next.step),
            self.aborts(self.write_error(path@, detail@), next.step),
    {
        let blob_id: String = self.rows[self.homes.len()].blob.id.clone();
        self.abort(MakeLocalError::Write { blob_id, path, detail })
    }

    fn begin_row_step(&self) -> (step: MakeLocalStep)
        requires
            self.working(),
        ensures
            self.begins_row(step),
    {
        let row: &RowBlobRef = &self.rows[self.homes.len()];
        if row.stored.is_none() {
            return self.abort_step(
                MakeLocalError::Read(
                    row.blob.id.clone(),
                    "remote row has no exact stored blob reference".to_owned(),
                ),
            );
        }
        match row.blob.provenance {
            Provenance::UserProvided => match find_dest(&self.dest, row.blob.id.as_str()) {
                None => self.abort_step(MakeLocalError::MissingDest(row.blob.id.clone())),
                Some(DestPath::NotUtf8(path)) => self.abort_step(
                    MakeLocalError::NonUtf8Dest {
                        blob_id: row.blob.id.clone(),
                        path: path.clone(),
                    },
                ),
                Some(DestPath::Utf8(path)) => MakeLocalStep::PrepareParent { path: path.clone() },
            },
            Provenance::HostProvided => match self.store_dir.local_blob_path(
                row.blob.namespace.as_str(),
                row.blob.id.as_str(),
            ) {
                Ok(path) => MakeLocalStep::Stage { path },
                Err(fault) => self.abort_step(
                    MakeLocalError::Write {
                        blob_id: row.blob.id.clone(),
                        path: "local/".to_owned().concat(row.blob.namespace.as_str()).concat(
                            "/",
                        ).concat(row.blob.id.as_str()),
                        detail: fault.message(),
                    },
                ),
            },
        }
    }

    fn row_or_last_step(&self) -> (step: MakeLocalStep)
        ensures
            step == self.row_or_last(self.homes@.len() as int),
    {
        if self.homes.len() < self.rows.len() {
            MakeLocalStep::CheckCancel
        } else {
            MakeLocalStep::CheckCancelLast
        }
    }

    fn changed(self) -> (next: MakeLocal)
        ensures
            next == self.at(next.step),
            self.aborts_keeping(self.changed_error(), next.step),
    {
        let message: String = "make_local root ".to_owned().concat(
            debug_quote(self.root_table.as_str()).as_str(),
        ).concat("/").concat(debug_quote(self.root_id.as_str()).as_str()).concat(
            " changed while its blobs were materialized",
        );
        self.abort_keeping(MakeLocalError::Db(DbError::Message(message)))
    }

    fn restamp_step(&self, from: usize) -> (step: MakeLocalStep)
        requires
            from <= self.rows@.len(),
        ensures
            step == self.restamps(from as int),
    {
        let mut row: usize = from;
        while row < self.rows.len() && same_text(
            self.rows[row].table.as_str(),
            self.root_table.as_str(),
        ) && same_text(self.rows[row].row_id.as_str(), self.root_id.as_str())
            invariant
                from <= row <= self.rows.len(),
                restamp_from(self.rows@, self.root_table@, self.root_id@, from as int)
                    == restamp_from(self.rows@, self.root_table@, self.root_id@, row as int),
            decreases self.rows.len() - row,
        {
            row = row + 1;
        }
        if row < self.rows.len() {
            MakeLocalStep::Restamp { row }
        } else {
            MakeLocalStep::RereadRows
        }
    }

    fn bind_step(&self, k: usize) -> (step: MakeLocalStep)
        ensures
            self.binds(k as int, step),
    {
        if k >= self.rows.len() || k >= self.local.len() || k >= self.homes.len() {
            return MakeLocalStep::CommitWrite;
        }
        let row: &RowBlobRef = &self.rows[k];
        if !local_version(row, &self.local[k], self.stamp.as_str()) {
            return self.abort_keeping_step(
                MakeLocalError::Db(
                    DbError::Message(
                        "make_local row ".to_owned().concat(
                            debug_quote(row.table.as_str()).as_str(),
                        ).concat("/").concat(debug_quote(row.row_id.as_str()).as_str()).concat(
                            "/",
                        ).concat(debug_quote(row.column.as_str()).as_str()).concat(
                            " changed while its blob was materialized",
                        ),
                    ),
                ),
            );
        }
        if self.homes[k].is_some() {
            MakeLocalStep::RegisterExternal { row: k }
        } else {
            MakeLocalStep::EnqueueDelete { row: k }
        }
    }

    fn db_or(self, done: Result<(), DbError>, step: MakeLocalStep) -> (next: MakeLocal)
        ensures
            next == self.at(next.step),
            match done {
                Err(error) => self.aborts_keeping(MakeLocalErrorView::Db(error@), next.step),
                Ok(_) => next.step == step,
            },
    {
        match done {
            Err(error) => self.abort_keeping(MakeLocalError::Db(error)),
            Ok(_) => self.go(step),
        }
    }

    fn took_rows(self, rows: Vec<RowBlobRef>) -> (next: MakeLocal)
        ensures
            next == (MakeLocal { rows: next.rows, homes: next.homes, ..self }).at(next.step),
            next.rows == rows,
            next.homes@.len() == 0,
            if !all_remote(rows@) {
                self.aborts(
                    MakeLocalErrorView::UnresolvedLocality(self.root_table@, self.root_id@),
                    next.step,
                )
            } else {
                match bad_dest(self.dest@) {
                    Some(error) => self.aborts(error, next.step),
                    None => next.step == next.row_or_last(0),
                }
            },
    {
        let remote: bool = rows_are_remote(&rows);
        let bad = find_bad_dest(&self.dest);
        let step = if !remote {
            self.abort_step(
                MakeLocalError::UnresolvedLocality(self.root_table.clone(), self.root_id.clone()),
            )
        } else {
            match bad {
                Some(error) => self.abort_step(error),
                None => if rows.len() > 0 {
                    MakeLocalStep::CheckCancel
                } else {
                    MakeLocalStep::CheckCancelLast
                },
            }
        };
        MakeLocal { rows, homes: Vec::new(), ..self }.go(step)
    }

    fn published(self, path: String) -> (next: MakeLocal)
        requires
            self.working(),
        ensures
            next == (MakeLocal { written: next.written, ..self }).at(next.step),
            next.written@ == self.written@.push(
                match self.row().blob.provenance {
                    Provenance::UserProvided => WrittenFile::User(path),
                    Provenance::HostProvided => WrittenFile::LocalStore(path),
                },
            ),
            next.step == (MakeLocalStep::MeasureLength { path }),
    {
        let file: WrittenFile = match self.rows[self.homes.len()].blob.provenance {
            Provenance::UserProvided => WrittenFile::User(path.clone()),
            Provenance::HostProvided => WrittenFile::LocalStore(path.clone()),
        };
        let MakeLocal {
            store_dir,
            root_table,
            root_id,
            gate_column,
            dest,
            rows,
            homes,
            written,
            stamp,
            local,
            step,
        } = self;
        let mut written: Vec<WrittenFile> = written;
        written.push(file);
        MakeLocal {
            store_dir,
            root_table,
            root_id,
            gate_column,
            dest,
            rows,
            homes,
            written,
            stamp,
            local,
            step,
        }.go(MakeLocalStep::MeasureLength { path })
    }

    fn row_is_back(self, path: String) -> (next: MakeLocal)
        requires
            self.working(),
        ensures
            next == (MakeLocal { homes: next.homes, ..self }).at(next.step),
            next.homes@ == self.homes@.push(
                match self.row().blob.provenance {
                    Provenance::UserProvided => Some(path),
                    Provenance::HostProvided => None,
                },
            ),
            next.step matches MakeLocalStep::NotifyProgress { done, total } && done
                == self.homes@.len() + 1 && total == self.rows@.len(),
    {
        let total: usize = self.rows.len();
        let before: usize = self.homes.len();
        let done: usize = before + 1;
        let home: Option<String> = match self.rows[self.homes.len()].blob.provenance {
            Provenance::UserProvided => Some(path),
            Provenance::HostProvided => None,
        };
        let MakeLocal {
            store_dir,
            root_table,
            root_id,
            gate_column,
            dest,
            rows,
            homes,
            written,
            stamp,
            local,
            step,
        } = self;
        let mut homes: Vec<Option<String>> = homes;
        homes.push(home);
        MakeLocal {
            store_dir,
            root_table,
            root_id,
            gate_column,
            dest,
            rows,
            homes,
            written,
            stamp,
            local,
            step,
        }.go(MakeLocalStep::NotifyProgress { done, total })
    }

    /// Takes the reply to the present step and decides the next one.
    pub fn next(self, reply: MakeLocalReply) -> (next: MakeLocal)
        ensures
            self.follows(reply, next),
    {
        let MakeLocal {
            store_dir,
            root_table,
            root_id,
            gate_column,
            dest,
            rows,
            homes,
            written,
            stamp,
            local,
            step,
        } = self;
        let working: bool = homes.len() < rows.len();
        let here = MakeLocal {
            store_dir,
            root_table,
            root_id,
            gate_column,
            dest,
            rows,
            homes,
            written,
            stamp,
            local,
            step: MakeLocalStep::Done,
        };
        match (step, reply) {
            (MakeLocalStep::ReadLocality, MakeLocalReply::Locality(locality)) => match locality {
                Err(error) => here.abort(MakeLocalError::Db(error)),
                Ok(Some(true)) => here.go(MakeLocalStep::ReadRows),
                Ok(Some(false)) => {
                    let error = MakeLocalError::AlreadyLocal(
                        here.root_table.clone(),
                        here.root_id.clone(),
                    );
                    here.abort(error)
                },
                Ok(None) => {
                    let error = MakeLocalError::UnresolvedLocality(
                        here.root_table.clone(),
                        here.root_id.clone(),
                    );
                    here.abort(error)
                },
            },
            (MakeLocalStep::ReadRows, MakeLocalReply::Rows(Err(error))) => here.abort(
                MakeLocalError::Db(error),
            ),
            (MakeLocalStep::ReadRows, MakeLocalReply::Rows(Ok(rows))) => here.took_rows(rows),
            (MakeLocalStep::CheckCancel, MakeLocalReply::Cancelled(cancelled)) if working => {
                if cancelled {
                    here.abort(MakeLocalError::Cancelled)
                } else {
                    let step = here.begin_row_step();
                    here.go(step)
                }
            },
            (MakeLocalStep::PrepareParent { path }, MakeLocalReply::Local(prepared)) if working => {
                match prepared {
                    Ok(_) => here.go(MakeLocalStep::Stage { path }),
                    Err(detail) => here.write_failed(path, detail),
                }
            },
            (MakeLocalStep::Stage { path }, MakeLocalReply::Local(staged)) if working => {
                match staged {
                    Ok(_) => here.go(MakeLocalStep::Publish { path }),
                    Err(detail) => {
                        let id: String = here.rows[here.homes.len()].blob.id.clone();
                        here.abort(MakeLocalError::Read(id, detail))
                    },
                }
            },
            (MakeLocalStep::Publish { path }, MakeLocalReply::Published(published)) if working => {
                match published {
                    PublishReply::Published => here.published(path),
                    PublishReply::DestinationExists(detail) => {
                        match here.rows[here.homes.len()].blob.provenance {
                            Provenance::UserProvided => if was_published(
                                &here.written,
                                path.as_str(),
                            ) {
                                let blob_id: String = here.rows[here.homes.len()].blob.id.clone();
                                here.abort_keeping(MakeLocalError::Write { blob_id, path, detail })
                            } else {
                                here.write_failed(path, detail)
                            },
                            Provenance::HostProvided => here.go(
                                MakeLocalStep::MeasureExisting { path },
                            ),
                        }
                    },
                    PublishReply::Failed(detail) => here.write_failed(path, detail),
                }
            },
            (MakeLocalStep::MeasureExisting { path }, MakeLocalReply::Facts(facts)) if working => {
                match facts {
                    Err(detail) => here.write_failed(path, detail),
                    Ok((size, hash)) => {
                        let row: &RowBlobRef = &here.rows[here.homes.len()];
                        if size != row.plaintext_size || !hash.same(&row.plaintext_hash) {
                            here.write_failed(
                                path,
                                "existing local-store file differs from the exact remote blob".to_owned(),
                            )
                        } else {
                            here.go(MakeLocalStep::MeasureLength { path })
                        }
                    },
                }
            },
            (MakeLocalStep::MeasureLength { path }, MakeLocalReply::Length(length)) if working => {
                match length {
                    Err(detail) => here.write_failed(path, detail),
                    Ok(length) => {
                        let expected: u64 = here.rows[here.homes.len()].plaintext_size;
                        if length != expected {
                            let detail: String = "dest ".to_owned().concat(path.as_str()).concat(
                                " is ",
                            ).concat(decimal_text(length).as_str()).concat(
                                " bytes after materialize, expected ",
                            ).concat(decimal_text(expected).as_str());
                            here.write_failed(path, detail)
                        } else {
                            here.go(MakeLocalStep::SyncParent { path })
                        }
                    },
                }
            },
            (MakeLocalStep::SyncParent { path }, MakeLocalReply::Local(synced)) if working => {
                match synced {
                    Err(detail) => here.write_failed(path, detail),
                    Ok(_) => here.row_is_back(path),
                }
            },
            (MakeLocalStep::NotifyProgress { .. }, MakeLocalReply::Done) => {
                let step = here.row_or_last_step();
                here.go(step)
            },
            (MakeLocalStep::CheckCancelLast, MakeLocalReply::Cancelled(cancelled)) => {
                if cancelled {
                    here.abort(MakeLocalError::Cancelled)
                } else {
                    here.go(MakeLocalStep::TakeStamp)
                }
            },
            (MakeLocalStep::TakeStamp, MakeLocalReply::Stamp(stamp)) => MakeLocal {
                stamp,
                ..here
            }.go(MakeLocalStep::RecheckRows),
            (MakeLocalStep::RecheckRows, MakeLocalReply::Rows(rows)) => match rows {
                Err(error) => here.abort_keeping(MakeLocalError::Db(error)),
                Ok(rows) => if rows_are_same(&rows, &here.rows) {
                    here.go(MakeLocalStep::FlipGate)
                } else {
                    here.changed()
                },
            },
            (MakeLocalStep::FlipGate, MakeLocalReply::Db(flipped)) => {
                let step = here.restamp_step(0);
                here.db_or(flipped, step)
            },
            (MakeLocalStep::Restamp { row }, MakeLocalReply::Updated(updated)) if row
                < here.rows.len() => match updated {
                Err(error) => here.abort_keeping(MakeLocalError::Db(error)),
                Ok(count) => if count != 1 {
                    let message: String = "make_local row ".to_owned().concat(
                        debug_quote(here.rows[row].table.as_str()).as_str(),
                    ).concat("/").concat(debug_quote(here.rows[row].row_id.as_str()).as_str()).concat(
                        " changed before restamping",
                    );
                    here.abort_keeping(MakeLocalError::Db(DbError::Message(message)))
                } else {
                    let step = here.restamp_step(row + 1);
                    here.go(step)
                },
            },
            (MakeLocalStep::RereadRows, MakeLocalReply::Rows(rows)) => match rows {
                Err(error) => here.abort_keeping(MakeLocalError::Db(error)),
                Ok(rows) => {
                    let count: usize = rows.len();
                    let read = MakeLocal { local: rows, ..here };
                    if count != read.rows.len() {
                        read.changed()
                    } else {
                        let step = read.bind_step(0);
                        read.go(step)
                    }
                },
            },
            (MakeLocalStep::RegisterExternal { row }, MakeLocalReply::Db(registered)) => here.db_or(
                registered,
                MakeLocalStep::EnqueueDelete { row },
            ),
            (MakeLocalStep::EnqueueDelete { row }, MakeLocalReply::Db(queued)) => match queued {
                Err(error) => here.abort_keeping(MakeLocalError::Db(error)),
                Ok(_) => {
                    let step = if row < here.rows.len() {
                        here.bind_step(row + 1)
                    } else {
                        MakeLocalStep::CommitWrite
                    };
                    here.go(step)
                },
            },
            (MakeLocalStep::CommitWrite, MakeLocalReply::Db(committed)) => here.db_or(
                committed,
                MakeLocalStep::NotifyMadeLocal,
            ),
            (MakeLocalStep::NotifyMadeLocal, MakeLocalReply::Done) => here.go(MakeLocalStep::Done),
            (
                MakeLocalStep::RollBack { paths, index, error },
                MakeLocalReply::Local(removed),
            ) if index < paths.len() => match removed {
                Err(detail) => {
                    let path: String = paths[index].clone();
                    here.go(MakeLocalStep::Failed { error: MakeLocalError::Cleanup { path, detail } })
                },
                Ok(_) => if index + 1 < paths.len() {
                    here.go(MakeLocalStep::RollBack { paths, index: index + 1, error })
                } else {
                    here.go(MakeLocalStep::Failed { error })
                },
            },
            (step, _) => here.go(step),
        }
    }
}

impl MakeLocal {
    /// Whether the step belongs to bringing a row back.
    pub open spec fn on_a_row(self) -> bool {
        match self.step {
            MakeLocalStep::CheckCancel => true,
            MakeLocalStep::PrepareParent { .. } => true,
            MakeLocalStep::Stage { .. } => true,
            MakeLocalStep::Publish { .. } => true,
            MakeLocalStep::MeasureExisting { .. } => true,
            MakeLocalStep::MeasureLength { .. } => true,
            MakeLocalStep::SyncParent { .. } => true,
            _ => false,
        }
    }

    /// Whether the step comes behind the last row: the write, and what follows it.
    pub open spec fn behind_the_rows(self) -> bool {
        match self.step {
            MakeLocalStep::CheckCancelLast => true,
            MakeLocalStep::TakeStamp => true,
            MakeLocalStep::RecheckRows => true,
            MakeLocalStep::FlipGate => true,
            MakeLocalStep::Restamp { .. } => true,
            MakeLocalStep::RereadRows => true,
            MakeLocalStep::RegisterExternal { .. } => true,
            MakeLocalStep::EnqueueDelete { .. } => true,
            MakeLocalStep::CommitWrite => true,
            MakeLocalStep::NotifyMadeLocal => true,
            MakeLocalStep::Done => true,
            _ => false,
        }
    }

    /// What holds at every point: a row is brought back only while one is left, and the
    /// write begins only when every row's blob is back and durable.
    pub open spec fn in_order(self) -> bool {
        &&& self.homes@.len() <= self.rows@.len()
        &&& self.on_a_row() ==> self.homes@.len() < self.rows@.len()
        &&& self.behind_the_rows() ==> self.homes@.len() == self.rows@.len()
        &&& self.step is ReadLocality || self.step is ReadRows ==> self.written@.len() == 0
        &&& self.step matches MakeLocalStep::RollBack { paths, index, .. } ==> index < paths@.len()
    }
}

/// One step of a run.
#[verifier::opaque]
pub open spec fn make_local_leads(before: MakeLocal, reply: MakeLocalReply, after: MakeLocal) -> bool {
    before.follows(reply, after)
}

/// A run of a transition: each state follows from the one before by some reply.
pub open spec fn is_make_local_run(states: Seq<MakeLocal>, replies: Seq<MakeLocalReply>) -> bool {
    &&& states.len() == replies.len() + 1
    &&& states[0].is_start()
    &&& forall|i: int|
        0 <= i < replies.len() ==> make_local_leads(
            states[i],
            #[trigger] replies[i],
            states[i + 1],
        )
}

proof fn lemma_make_local_stays_in_order(
    before: MakeLocal,
    reply: MakeLocalReply,
    after: MakeLocal,
)
    requires
        make_local_leads(before, reply, after),
        before.in_order(),
    ensures
        after.in_order(),
{
    reveal(make_local_leads);
}

/// Whatever the operations reply: at every point of a transition, no gate is flipped and
/// no cloud object is queued for deletion unless every row's blob is back on the device
/// and durable.
pub proof fn law_make_local_is_durable_before_it_deletes(
    states: Seq<MakeLocal>,
    replies: Seq<MakeLocalReply>,
    at: int,
)
    requires
        is_make_local_run(states, replies),
        0 <= at < states.len(),
    ensures
        states[at].in_order(),
        states[at].step is FlipGate || states[at].step is EnqueueDelete || states[at].step is CommitWrite
            ==> states[at].homes@.len() == states[at].rows@.len(),
    decreases at,
{
    if at > 0 {
        law_make_local_is_durable_before_it_deletes(states, replies, at - 1);
        assert(make_local_leads(states[at - 1], replies[at - 1], states[at - 1 + 1]));
        lemma_make_local_stays_in_order(states[at - 1], replies[at - 1], states[at]);
    }
}

/// A row counts as back only after its file was found at its path with the declared
/// length and the folder entry was made durable.
pub proof fn law_row_is_back_only_when_durable(
    before: MakeLocal,
    reply: MakeLocalReply,
    after: MakeLocal,
)
    requires
        before.follows(reply, after),
    ensures
        after.homes@.len() > before.homes@.len() ==> before.step is SyncParent
            && reply matches MakeLocalReply::Local(Ok(_)),
        after.step is SyncParent && before.step != after.step ==> before.step is MeasureLength
            && reply == MakeLocalReply::Length(Ok(before.row().plaintext_size)),
{
}

/// Every file the transition publishes is remembered with its kind, and none is forgotten.
pub proof fn law_published_files_are_remembered(
    before: MakeLocal,
    reply: MakeLocalReply,
    after: MakeLocal,
)
    requires
        before.follows(reply, after),
        before.working(),
    ensures
        before.step is Publish && reply == MakeLocalReply::Published(PublishReply::Published)
            ==> after.written@ == before.written@.push(
            match before.row().blob.provenance {
                Provenance::UserProvided => WrittenFile::User(before.step->Publish_path),
                Provenance::HostProvided => WrittenFile::LocalStore(before.step->Publish_path),
            },
        ),
        before.written@.is_prefix_of(after.written@),
{
}

impl MakeLocal {
    /// Whether the step is one of the write.
    pub open spec fn writing(self) -> bool {
        match self.step {
            MakeLocalStep::RecheckRows => true,
            MakeLocalStep::FlipGate => true,
            MakeLocalStep::Restamp { .. } => true,
            MakeLocalStep::RereadRows => true,
            MakeLocalStep::RegisterExternal { .. } => true,
            MakeLocalStep::EnqueueDelete { .. } => true,
            MakeLocalStep::CommitWrite => true,
            _ => false,
        }
    }

    /// Whether publishing found a file of the user's that this transition put there.
    pub open spec fn shares_a_path(self, reply: MakeLocalReply) -> bool {
        &&& self.step matches MakeLocalStep::Publish { path } && is_published(self.written@, path@)
        &&& self.working() && self.row().blob.provenance is UserProvided
        &&& reply matches MakeLocalReply::Published(PublishReply::DestinationExists(_))
    }

    /// The files that a failure on this reply removes.
    pub open spec fn removed_on_failure(self, reply: MakeLocalReply) -> Seq<String> {
        if self.writing() || self.shares_a_path(reply) {
            store_files(self.written@)
        } else {
            all_files(self.written@)
        }
    }
}

/// A transition that published files fails only after it removed each of those that it
/// must, from the first to the last, or with the error of the file it could not remove.
/// Before the write these are all of them; from there on only those in the local store.
pub proof fn law_abort_removes_published_files(
    before: MakeLocal,
    reply: MakeLocalReply,
    after: MakeLocal,
)
    requires
        before.follows(reply, after),
        before.step != after.step,
        before.in_order(),
    ensures
        after.step is Failed ==> {
            ||| !(before.step is RollBack) && before.removed_on_failure(reply).len() == 0
            ||| before.step matches MakeLocalStep::RollBack { paths, index, .. } && {
                ||| index + 1 == paths@.len() && reply matches MakeLocalReply::Local(Ok(_))
                ||| reply matches MakeLocalReply::Local(Err(_)) && after.step->Failed_error@ is Cleanup
            }
        },
        after.step matches MakeLocalStep::RollBack { paths, index, .. } ==> {
            ||| !(before.step is RollBack) && index == 0 && paths@ == before.removed_on_failure(
                reply,
            )
            ||| before.step matches MakeLocalStep::RollBack { paths: same, index: earlier, .. }
                && paths == same && index == earlier + 1 && reply matches MakeLocalReply::Local(
                Ok(_),
            )
        },
{
    if let MakeLocalStep::RollBack { paths, .. } = before.step {
        assert(paths@.len() == paths.len());
    }
}

proof fn lemma_split_files(written: Seq<WrittenFile>)
    ensures
        forall|i: int|
            0 <= i < user_files(written).len() ==> exists|k: int|
                0 <= k < written.len() && #[trigger] written[k] == WrittenFile::User(
                    #[trigger] user_files(written)[i],
                ),
        forall|i: int|
            0 <= i < store_files(written).len() ==> exists|k: int|
                0 <= k < written.len() && #[trigger] written[k] == WrittenFile::LocalStore(
                    #[trigger] store_files(written)[i],
                ),
        forall|k: int|
            0 <= k < written.len() ==> if (#[trigger] written[k]) is User {
                user_files(written).contains(written[k].path())
            } else {
                store_files(written).contains(written[k].path())
            },
    decreases written.len(),
{
    if written.len() > 0 {
        let earlier = written.drop_last();
        lemma_split_files(earlier);
        assert forall|i: int| 0 <= i < user_files(written).len() implies exists|k: int|
            0 <= k < written.len() && #[trigger] written[k] == WrittenFile::User(
                #[trigger] user_files(written)[i],
            ) by {
            if i < user_files(earlier).len() {
                let k = choose|k: int|
                    0 <= k < earlier.len() && #[trigger] earlier[k] == WrittenFile::User(
                        user_files(earlier)[i],
                    );
                assert(written[k] == WrittenFile::User(user_files(written)[i]));
            } else {
                assert(written[written.len() - 1] == WrittenFile::User(user_files(written)[i]));
            }
        }
        assert forall|i: int| 0 <= i < store_files(written).len() implies exists|k: int|
            0 <= k < written.len() && #[trigger] written[k] == WrittenFile::LocalStore(
                #[trigger] store_files(written)[i],
            ) by {
            if i < store_files(earlier).len() {
                let k = choose|k: int|
                    0 <= k < earlier.len() && #[trigger] earlier[k] == WrittenFile::LocalStore(
                        store_files(earlier)[i],
                    );
                assert(written[k] == WrittenFile::LocalStore(store_files(written)[i]));
            } else {
                assert(written[written.len() - 1] == WrittenFile::LocalStore(
                    store_files(written)[i],
                ));
            }
        }
        assert forall|k: int| 0 <= k < written.len() implies if (#[trigger] written[k]) is User {
            user_files(written).contains(written[k].path())
        } else {
            store_files(written).contains(written[k].path())
        } by {
            if k < earlier.len() {
                assert(earlier[k] == written[k]);
                if written[k] is User {
                    let i = user_files(earlier).index_of(written[k].path());
                    assert(user_files(written)[i] == written[k].path());
                } else {
                    let i = store_files(earlier).index_of(written[k].path());
                    assert(store_files(written)[i] == written[k].path());
                }
            } else if written[k] is User {
                assert(user_files(written)[user_files(written).len() - 1] == written[k].path());
            } else {
                assert(store_files(written)[store_files(written).len() - 1] == written[k].path());
            }
        }
    }
}

/// Once the write has begun, a failure leaves every published file of the user's where it
/// is and names all of them; what it removes was published in the local store.
pub proof fn law_failed_write_keeps_the_users_files(
    before: MakeLocal,
    reply: MakeLocalReply,
    after: MakeLocal,
    k: int,
)
    requires
        before.follows(reply, after),
        before.writing(),
        after.step is Failed || after.step is RollBack,
        0 <= k < before.written@.len(),
    ensures
        after.written == before.written,
        before.written@[k] is User ==> {
            let error = match after.step {
                MakeLocalStep::Failed { error } => error@,
                MakeLocalStep::RollBack { error, .. } => error@,
                _ => arbitrary(),
            };
            &&& error is PartialMaterialization
            &&& error->retained_paths == texts(user_files(before.written@))
            &&& error->retained_paths.contains(before.written@[k].path()@)
        },
        before.written@[k] is LocalStore ==> after.step is RollBack
            && after.step->paths@.contains(before.written@[k].path()),
        after.step matches MakeLocalStep::RollBack { paths, .. } ==> forall|i: int|
            0 <= i < paths@.len() ==> exists|j: int|
                0 <= j < before.written@.len() && #[trigger] before.written@[j]
                    == WrittenFile::LocalStore(#[trigger] paths@[i]),
{
    lemma_split_files(before.written@);
    let users = user_files(before.written@);
    if before.written@[k] is User {
        let i = users.index_of(before.written@[k].path());
        assert(texts(users)[i] == before.written@[k].path()@);
    }
}

/// The root is told to be local only after its write committed, and the write is reached
/// only through an unchanged set of rows.
pub proof fn law_made_local_means_committed(
    before: MakeLocal,
    reply: MakeLocalReply,
    after: MakeLocal,
)
    requires
        before.follows(reply, after),
        before.step != after.step,
    ensures
        after.step is NotifyMadeLocal ==> before.step is CommitWrite && reply matches MakeLocalReply::Db(
            Ok(_),
        ),
        after.step is FlipGate ==> before.step is RecheckRows && (
        reply matches MakeLocalReply::Rows(Ok(rows)) && same_rows(rows@, before.rows@)),
{
}

/// How far a transition is from its end: its phase, and what is left of the phase.
pub open spec fn make_local_left(transition: MakeLocal) -> (nat, int) {
    let rows = transition.rows@.len() as int;
    let away = 10 * (rows - transition.homes@.len());
    match transition.step {
        MakeLocalStep::ReadLocality => (14, 0),
        MakeLocalStep::ReadRows => (13, 0),
        MakeLocalStep::NotifyProgress { .. } => (12, away + 9),
        MakeLocalStep::CheckCancel => (12, away + 8),
        MakeLocalStep::PrepareParent { .. } => (12, away + 7),
        MakeLocalStep::Stage { .. } => (12, away + 6),
        MakeLocalStep::Publish { .. } => (12, away + 5),
        MakeLocalStep::MeasureExisting { .. } => (12, away + 4),
        MakeLocalStep::MeasureLength { .. } => (12, away + 3),
        MakeLocalStep::SyncParent { .. } => (12, away + 2),
        MakeLocalStep::CheckCancelLast => (11, 0),
        MakeLocalStep::TakeStamp => (10, 0),
        MakeLocalStep::RecheckRows => (9, 0),
        MakeLocalStep::FlipGate => (8, 0),
        MakeLocalStep::Restamp { row } => (7, rows - row),
        MakeLocalStep::RereadRows => (6, 0),
        MakeLocalStep::RegisterExternal { row } => (5, if row < rows { 2 * (rows - row) + 1 } else { 1 }),
        MakeLocalStep::EnqueueDelete { row } => (5, if row < rows { 2 * (rows - row) } else { 0 }),
        MakeLocalStep::CommitWrite => (4, 0),
        MakeLocalStep::NotifyMadeLocal => (3, 0),
        MakeLocalStep::RollBack { paths, index, .. } => (2, paths@.len() - index),
        MakeLocalStep::Done => (0, 0),
        MakeLocalStep::Failed { .. } => (0, 0),
    }
}

proof fn lemma_restamp_from_goes_on(
    rows: Seq<RowBlobRef>,
    root_table: Seq<char>,
    root_id: Seq<char>,
    from: int,
)
    ensures
        restamp_from(rows, root_table, root_id, from) >= from,
    decreases rows.len() - from,
{
    if 0 <= from < rows.len() && rows[from].table@ == root_table && rows[from].row_id@ == root_id {
        lemma_restamp_from_goes_on(rows, root_table, root_id, from + 1);
    }
}

/// Every transition ends: each reply that answers the step brings it nearer to its end,
/// which is a phase that is over or a part of one, and one that does not changes nothing.
#[verifier::rlimit(40)]
pub proof fn law_make_local_ends(before: MakeLocal, reply: MakeLocalReply, after: MakeLocal)
    requires
        before.follows(reply, after),
        before.in_order(),
    ensures
        after == before || make_local_left(after).0 < make_local_left(before).0 || (
        make_local_left(after).0 == make_local_left(before).0 && 0 <= make_local_left(after).1
            < make_local_left(before).1),
{
    assert(before.rows@.len() == before.rows.len());
    if let MakeLocalStep::RollBack { paths, .. } = before.step {
        assert(paths@.len() == paths.len());
    }
    if let MakeLocalStep::Restamp { row } = before.step {
        lemma_restamp_from_goes_on(
            before.rows@,
            before.root_table@,
            before.root_id@,
            row + 1,
        );
    }
}

} // verus!
