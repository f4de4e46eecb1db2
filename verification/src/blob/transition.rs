//! The locality transitions: making a root remote, cancelling that, and making a root
//! local again.
//!
//! A blob-bearing root is local (its blobs are on this device and its gate is off) or
//! remote (its blobs are in the cloud and its gate is on). Each way there is one atomic
//! commit, a durable copy exists before any copy is deleted, and nothing destructive
//! happens before the commit, so a crash leaves no half-state and a retry is idempotent.
//!
//! A root that is remote by construction has no local state, and both ways refuse it.

use vstd::prelude::*;
use vstd::string::*;

use crate::blob::upload_queue::{
    after_writes, are_rows, are_uploads, is_queue, is_queued_once, law_each_row_is_queued_once, plan_uploads,
    upload_writes,
};
use crate::blob::Provenance;
use crate::database::{DbError, DbErrorView};
use crate::digest::{hex_text, ObjectHash};
use crate::outbox::{ExternalBlob, MakeRemoteIntentState, OutboxEntry, OutboxOperation, OutboxUploadState, RowBlobAuthority, RowBlobRef};
use crate::session::{declares_remote_root, gate_column, gate_of, is_remote_root, SyncedTable};
use crate::store_dir::{first_fault, local_path_text, StoreDir};
use crate::text::{debug_quote, debug_text, decimal, decimal_text};

verus! {

/// What the finalizer of a created upload did.
#[derive(Debug)]
pub enum PostUpload {
    /// Other uploads of the root are still under way, or its publication is.
    Waiting,
    /// The transition was cancelled.
    Cancelled,
    /// The root is remote now.
    MadeRemote { root_table: String, root_id: String },
}

/// Why a root could not be made remote, or that could not be cancelled.
#[derive(Debug)]
pub enum MakeRemoteError {
    SyncNotReady,
    NotGated(String),
    RemoteRoot(String),
    AlreadyRemote(String, String),
    UnresolvedLocality(String, String),
    NothingToMakeRemote(String, String),
    NotExternal(String),
    Source { blob_id: String, path: String, detail: String },
    Db(DbError),
}

/// What a [`MakeRemoteError`] says.
pub ghost enum MakeRemoteErrorView {
    SyncNotReady,
    NotGated(Seq<char>),
    RemoteRoot(Seq<char>),
    AlreadyRemote(Seq<char>, Seq<char>),
    UnresolvedLocality(Seq<char>, Seq<char>),
    NothingToMakeRemote(Seq<char>, Seq<char>),
    NotExternal(Seq<char>),
    Source { blob_id: Seq<char>, path: Seq<char>, detail: Seq<char> },
    Db(DbErrorView),
}

impl View for MakeRemoteError {
    type V = MakeRemoteErrorView;

    open spec fn view(&self) -> MakeRemoteErrorView {
        match self {
            MakeRemoteError::SyncNotReady => MakeRemoteErrorView::SyncNotReady,
            MakeRemoteError::NotGated(table) => MakeRemoteErrorView::NotGated(table@),
            MakeRemoteError::RemoteRoot(table) => MakeRemoteErrorView::RemoteRoot(table@),
            MakeRemoteError::AlreadyRemote(table, id) => {
                MakeRemoteErrorView::AlreadyRemote(table@, id@)
            },
            MakeRemoteError::UnresolvedLocality(table, id) => {
                MakeRemoteErrorView::UnresolvedLocality(table@, id@)
            },
            MakeRemoteError::NothingToMakeRemote(table, id) => {
                MakeRemoteErrorView::NothingToMakeRemote(table@, id@)
            },
            MakeRemoteError::NotExternal(id) => MakeRemoteErrorView::NotExternal(id@),
            MakeRemoteError::Source { blob_id, path, detail } => MakeRemoteErrorView::Source {
                blob_id: blob_id@,
                path: path@,
                detail: detail@,
            },
            MakeRemoteError::Db(error) => MakeRemoteErrorView::Db(error@),
        }
    }
}

impl MakeRemoteErrorView {
    /// The error in words.
    pub open spec fn message_text(self) -> Seq<char> {
        match self {
            MakeRemoteErrorView::SyncNotReady => {
                "sync is not running, so a transition cannot start"@
            },
            MakeRemoteErrorView::NotGated(table) => "table "@ + debug_text(table)
                + " is not a gated root, so it has no Local/Remote state"@,
            MakeRemoteErrorView::RemoteRoot(table) => "table "@ + debug_text(table)
                + " is a remote root, so its blobs are already Remote"@,
            MakeRemoteErrorView::AlreadyRemote(table, id) => root_text(table, id)
                + " is already Remote, so make_remote has nothing to do"@,
            MakeRemoteErrorView::UnresolvedLocality(table, id) => root_text(table, id)
                + " has no resolvable Local/Remote state (row absent or gate NULL)"@,
            MakeRemoteErrorView::NothingToMakeRemote(table, id) => "nothing to make Remote: "@
                + root_text(table, id) + " has no blobs"@,
            MakeRemoteErrorView::NotExternal(id) => "blob "@ + debug_text(id)
                + " is not a user-provided (external) file, so it cannot be made Remote"@,
            MakeRemoteErrorView::Source { blob_id, path, detail } => "external source for blob "@
                + debug_text(blob_id) + " at "@ + path + ": "@ + detail,
            MakeRemoteErrorView::Db(error) => "database error: "@ + error.message_text(),
        }
    }
}

/// A root in words.
pub open spec fn root_text(table: Seq<char>, id: Seq<char>) -> Seq<char> {
    "root "@ + debug_text(table) + "/"@ + debug_text(id)
}

pub(crate) fn root_words(table: &str, id: &str) -> (text: String)
    ensures
        text@ == root_text(table@, id@),
{
    "root ".to_owned().concat(debug_quote(table).as_str()).concat("/").concat(
        debug_quote(id).as_str(),
    )
}

impl MakeRemoteError {
    /// The error in words.
    pub fn message(&self) -> (text: String)
        ensures
            text@ == self@.message_text(),
    {
        match self {
            MakeRemoteError::SyncNotReady => "sync is not running, so a transition cannot start".to_owned(),
            MakeRemoteError::NotGated(table) => "table ".to_owned().concat(
                debug_quote(table.as_str()).as_str(),
            ).concat(" is not a gated root, so it has no Local/Remote state"),
            MakeRemoteError::RemoteRoot(table) => "table ".to_owned().concat(
                debug_quote(table.as_str()).as_str(),
            ).concat(" is a remote root, so its blobs are already Remote"),
            MakeRemoteError::AlreadyRemote(table, id) => root_words(
                table.as_str(),
                id.as_str(),
            ).concat(" is already Remote, so make_remote has nothing to do"),
            MakeRemoteError::UnresolvedLocality(table, id) => root_words(
                table.as_str(),
                id.as_str(),
            ).concat(" has no resolvable Local/Remote state (row absent or gate NULL)"),
            MakeRemoteError::NothingToMakeRemote(table, id) => "nothing to make Remote: ".to_owned().concat(
                root_words(table.as_str(), id.as_str()).as_str(),
            ).concat(" has no blobs"),
            MakeRemoteError::NotExternal(id) => "blob ".to_owned().concat(
                debug_quote(id.as_str()).as_str(),
            ).concat(" is not a user-provided (external) file, so it cannot be made Remote"),
            MakeRemoteError::Source { blob_id, path, detail } => "external source for blob ".to_owned().concat(
                debug_quote(blob_id.as_str()).as_str(),
            ).concat(" at ").concat(path.as_str()).concat(": ").concat(detail.as_str()),
            MakeRemoteError::Db(error) => "database error: ".to_owned().concat(
                error.message().as_str(),
            ),
        }
    }
}

/// Which gate column belongs to a root that can be moved, or why it cannot.
pub open spec fn gated_root(tables: Seq<SyncedTable>, root_table: Seq<char>) -> Result<
    Seq<char>,
    MakeRemoteErrorView,
> {
    if declares_remote_root(tables, root_table) {
        Err(MakeRemoteErrorView::RemoteRoot(root_table))
    } else {
        match gate_of(tables, root_table) {
            Some(column) => Ok(column),
            None => Err(MakeRemoteErrorView::NotGated(root_table)),
        }
    }
}

/// Checks that `root_table` is a gated root, and gives its gate column.
pub fn gated_root_gate_col(tables: &Vec<SyncedTable>, root_table: &str) -> (column: Result<
    String,
    MakeRemoteError,
>)
    ensures
        match gated_root(tables@, root_table@) {
            Ok(named) => column matches Ok(c) && c@ == named,
            Err(fault) => column matches Err(error) && error@ == fault,
        },
{
    if is_remote_root(tables, root_table) {
        return Err(MakeRemoteError::RemoteRoot(root_table.to_owned()));
    }
    match gate_column(tables, root_table) {
        Some(column) => Ok(column.clone()),
        None => Err(MakeRemoteError::NotGated(root_table.to_owned())),
    }
}

/// The operation that making a root remote performs next. The steps from
/// `RecheckLocality` to `Enqueue` run in one transaction, which only a successful
/// `Enqueue` commits.
#[derive(Debug)]
pub enum MakeRemoteStep {
    /// Read whether the root is remote.
    ReadLocality,
    /// Read the blob-bearing rows below the root.
    ReadRows,
    /// Read the user's file that the next row is registered with.
    ReadExternal,
    /// Measure the next row's source file.
    MeasureSource { path: String },
    /// Read again whether the root is remote.
    RecheckLocality,
    /// Read the rows again.
    RecheckRows,
    /// Read the uploads that are queued below the root.
    ReadQueue,
    /// Record the intent, and for each row write its source and the pinning into this
    /// entry, or queue a new upload where there is none.
    Enqueue { writes: Vec<Option<i64>> },
    /// Every upload is queued.
    Done,
    /// Nothing is queued.
    Failed { error: MakeRemoteError },
}

/// What the operation answered.
#[derive(Debug)]
pub enum MakeRemoteReply {
    /// Whether the root is remote, or `None` where its row or its gate has no value.
    Locality(Result<Option<bool>, DbError>),
    /// The blob-bearing rows below the root.
    Rows(Result<Vec<RowBlobRef>, DbError>),
    /// The user's file.
    External(Result<Option<ExternalBlob>, DbError>),
    /// The length and the hash of a file.
    Facts(Result<(u64, ObjectHash), String>),
    /// The uploads that are queued.
    Queue(Result<Vec<OutboxEntry>, DbError>),
    /// The transaction's outcome.
    Db(Result<(), DbError>),
}

/// A root on its way to being remote: every row's source is verified before anything is
/// queued, and everything is queued at once.
#[derive(Debug)]
pub struct MakeRemote {
    /// Where this device keeps its files.
    pub store_dir: StoreDir,
    pub root_table: String,
    pub root_id: String,
    /// The column that says whether the root is remote.
    pub gate_column: String,
    /// Whether the uploaded blobs stay on the device.
    pub pin: bool,
    /// The blob-bearing rows below the root.
    pub rows: Vec<RowBlobRef>,
    /// The verified sources of the first rows, in the same order.
    pub sources: Vec<String>,
    /// What to perform next.
    pub step: MakeRemoteStep,
}

/// What keeps a source from standing for its row: the text that says so, or `None` where
/// both facts agree.
pub open spec fn facts_fault(row: RowBlobRef, size: u64, hash: ObjectHash) -> Option<Seq<char>> {
    if size != row.plaintext_size || hash != row.plaintext_hash {
        Some(
            "plaintext facts "@ + decimal(size as nat) + "/"@ + hex_text(hash@)
                + " differ from row facts "@ + decimal(row.plaintext_size as nat) + "/"@ + hex_text(
                row.plaintext_hash@,
            ),
        )
    } else {
        None
    }
}

fn facts_words(row: &RowBlobRef, size: u64, hash: ObjectHash) -> (text: String)
    ensures
        text@ == "plaintext facts "@ + decimal(size as nat) + "/"@ + hex_text(hash@)
            + " differ from row facts "@ + decimal(row.plaintext_size as nat) + "/"@ + hex_text(
            row.plaintext_hash@,
        ),
{
    "plaintext facts ".to_owned().concat(decimal_text(size).as_str()).concat("/").concat(
        hash.to_text().as_str(),
    ).concat(" differ from row facts ").concat(decimal_text(row.plaintext_size).as_str()).concat(
        "/",
    ).concat(row.plaintext_hash.to_text().as_str())
}

/// Whether two lists of rows say the same, row by row.
pub open spec fn same_rows(a: Seq<RowBlobRef>, b: Seq<RowBlobRef>) -> bool {
    a.len() == b.len() && forall|i: int| 0 <= i < a.len() ==> (#[trigger] a[i])@ == b[i]@
}

pub(crate) fn rows_are_same(a: &Vec<RowBlobRef>, b: &Vec<RowBlobRef>) -> (same: bool)
    ensures
        same == same_rows(a@, b@),
{
    if a.len() != b.len() {
        return false;
    }
    let mut i: usize = 0;
    while i < a.len()
        invariant
            i <= a.len(),
            a.len() == b.len(),
            forall|j: int| 0 <= j < i ==> (#[trigger] a@[j])@ == b@[j]@,
        decreases a.len() - i,
    {
        if !a[i].same(&b[i]) {
            assert(a@[i as int]@ != b@[i as int]@);
            return false;
        }
        i = i + 1;
    }
    true
}

impl MakeRemote {
    /// Everything but the verified sources and the step is as it was.
    pub open spec fn same_root(self, next: MakeRemote) -> bool {
        &&& next.store_dir == self.store_dir
        &&& next.root_table == self.root_table
        &&& next.root_id == self.root_id
        &&& next.gate_column == self.gate_column
        &&& next.pin == self.pin
    }

    /// The same transition at another step.
    pub open spec fn at(self, step: MakeRemoteStep) -> MakeRemote {
        MakeRemote { step, ..self }
    }

    /// The transition is refused with this error.
    pub open spec fn refused(self, error: MakeRemoteErrorView, next: MakeRemote) -> bool {
        &&& next == self.at(next.step)
        &&& next.step matches MakeRemoteStep::Failed { error: e } && e@ == error
    }

    /// What comes for the row behind the verified ones: its source is looked up where the
    /// row is local still; behind the last row the commit begins.
    pub open spec fn turns_to_row(self, k: int, step: MakeRemoteStep) -> bool {
        if k >= self.rows@.len() {
            step is RecheckLocality
        } else {
            let row = self.rows@[k];
            if row.authority != RowBlobAuthority::Local || row.stored is Some {
                step matches MakeRemoteStep::Failed { error } && error@
                    == MakeRemoteErrorView::AlreadyRemote(self.root_table@, self.root_id@)
            } else {
                match row.blob.provenance {
                    Provenance::UserProvided => step is ReadExternal,
                    Provenance::HostProvided => match first_fault(
                        seq![row.blob.namespace@, row.blob.id@],
                    ) {
                        Some(fault) => step matches MakeRemoteStep::Failed { error } && error@ == (
                        MakeRemoteErrorView::Source {
                            blob_id: row.blob.id@,
                            path: "local/"@ + row.blob.namespace@ + "/"@ + row.blob.id@,
                            detail: fault.message_text(),
                        }),
                        None => step matches MakeRemoteStep::MeasureSource { path } && path@
                            == local_path_text(
                            self.store_dir@,
                            row.blob.namespace@,
                            row.blob.id@,
                        ),
                    },
                }
            }
        }
    }

    /// The refusal that a locality gives, or `None` where the root is local.
    pub open spec fn locality_fault(self, locality: Result<Option<bool>, DbError>) -> Option<
        MakeRemoteErrorView,
    > {
        match locality {
            Err(error) => Some(MakeRemoteErrorView::Db(error@)),
            Ok(Some(false)) => None,
            Ok(Some(true)) => Some(
                MakeRemoteErrorView::AlreadyRemote(self.root_table@, self.root_id@),
            ),
            Ok(None) => Some(
                MakeRemoteErrorView::UnresolvedLocality(self.root_table@, self.root_id@),
            ),
        }
    }

    /// What follows on each reply. A reply that does not answer the step changes nothing.
    pub open spec fn follows(self, reply: MakeRemoteReply, next: MakeRemote) -> bool {
        let row = self.rows@[self.sources@.len() as int];
        let working = self.sources@.len() < self.rows@.len();
        match (self.step, reply) {
            (MakeRemoteStep::ReadLocality, MakeRemoteReply::Locality(locality)) => {
                match self.locality_fault(locality) {
                    None => next == self.at(MakeRemoteStep::ReadRows),
                    Some(fault) => self.refused(fault, next),
                }
            },
            (MakeRemoteStep::ReadRows, MakeRemoteReply::Rows(Err(error))) => self.refused(
                MakeRemoteErrorView::Db(error@),
                next,
            ),
            (MakeRemoteStep::ReadRows, MakeRemoteReply::Rows(Ok(rows))) => if rows@.len() == 0 {
                self.refused(
                    MakeRemoteErrorView::NothingToMakeRemote(self.root_table@, self.root_id@),
                    next,
                )
            } else {
                &&& self.same_root(next)
                &&& next.rows == rows
                &&& next.sources@.len() == 0
                &&& next.turns_to_row(0, next.step)
            },
            (MakeRemoteStep::ReadExternal, MakeRemoteReply::External(external)) if working => {
                match external {
                    Err(error) => self.refused(MakeRemoteErrorView::Db(error@), next),
                    Ok(None) => self.refused(MakeRemoteErrorView::NotExternal(row.blob.id@), next),
                    Ok(Some(file)) => next == self.at(
                        MakeRemoteStep::MeasureSource { path: file.path },
                    ),
                }
            },
            (MakeRemoteStep::MeasureSource { path }, MakeRemoteReply::Facts(facts)) if working => {
                match facts {
                    Err(detail) => self.refused(
                        MakeRemoteErrorView::Source {
                            blob_id: row.blob.id@,
                            path: path@,
                            detail: detail@,
                        },
                        next,
                    ),
                    Ok((size, hash)) => match facts_fault(row, size, hash) {
                        Some(detail) => self.refused(
                            MakeRemoteErrorView::Source {
                                blob_id: row.blob.id@,
                                path: path@,
                                detail,
                            },
                            next,
                        ),
                        None => {
                            &&& self.same_root(next)
                            &&& next.rows == self.rows
                            &&& next.sources@ == self.sources@.push(path)
                            &&& next.turns_to_row((self.sources@.len() + 1) as int, next.step)
                        },
                    },
                }
            },
            (MakeRemoteStep::RecheckLocality, MakeRemoteReply::Locality(locality)) => {
                match self.locality_fault(locality) {
                    None => next == self.at(MakeRemoteStep::RecheckRows),
                    Some(fault) => self.refused(fault, next),
                }
            },
            (MakeRemoteStep::RecheckRows, MakeRemoteReply::Rows(Err(error))) => self.refused(
                MakeRemoteErrorView::Db(error@),
                next,
            ),
            (MakeRemoteStep::RecheckRows, MakeRemoteReply::Rows(Ok(rows))) => if same_rows(
                rows@,
                self.rows@,
            ) {
                next == self.at(MakeRemoteStep::ReadQueue)
            } else {
                self.refused(
                    MakeRemoteErrorView::Db(
                        DbErrorView::Message(
                            "blob rows below "@ + debug_text(self.root_table@) + "/"@ + debug_text(
                                self.root_id@,
                            ) + " changed while make_remote verified their sources"@,
                        ),
                    ),
                    next,
                )
            },
            (MakeRemoteStep::ReadQueue, MakeRemoteReply::Queue(Err(error))) => self.refused(
                MakeRemoteErrorView::Db(error@),
                next,
            ),
            (MakeRemoteStep::ReadQueue, MakeRemoteReply::Queue(Ok(queue))) => {
                &&& next == self.at(next.step)
                &&& next.step matches MakeRemoteStep::Enqueue { writes } && writes@
                    == upload_writes(queue@, self.rows@)
            },
            (MakeRemoteStep::Enqueue { .. }, MakeRemoteReply::Db(Err(error))) => self.refused(
                MakeRemoteErrorView::Db(error@),
                next,
            ),
            (MakeRemoteStep::Enqueue { .. }, MakeRemoteReply::Db(Ok(_))) => next == self.at(
                MakeRemoteStep::Done,
            ),
            _ => next == self,
        }
    }

    /// Starts making a root remote; a table that is no gated root is refused at once.
    pub fn start(
        tables: &Vec<SyncedTable>,
        store_dir: StoreDir,
        root_table: String,
        root_id: String,
        pin: bool,
    ) -> (started: Result<MakeRemote, MakeRemoteError>)
        ensures
            match gated_root(tables@, root_table@) {
                Err(fault) => started matches Err(error) && error@ == fault,
                Ok(column) => started matches Ok(transition) && {
                    &&& transition.store_dir == store_dir
                    &&& transition.root_table == root_table
                    &&& transition.root_id == root_id
                    &&& transition.gate_column@ == column
                    &&& transition.pin == pin
                    &&& transition.rows@.len() == 0
                    &&& transition.sources@.len() == 0
                    &&& transition.step is ReadLocality
                },
            },
    {
        match gated_root_gate_col(tables, root_table.as_str()) {
            Err(error) => Err(error),
            Ok(gate_column) => Ok(
                MakeRemote {
                    store_dir,
                    root_table,
                    root_id,
                    gate_column,
                    pin,
                    rows: Vec::new(),
                    sources: Vec::new(),
                    step: MakeRemoteStep::ReadLocality,
                },
            ),
        }
    }

    fn go(self, step: MakeRemoteStep) -> (next: MakeRemote)
        ensures
            next == self.at(step),
    {
        MakeRemote { step, ..self }
    }

    fn refuse(self, error: MakeRemoteError) -> (next: MakeRemote)
        ensures
            self.refused(error@, next),
    {
        self.go(MakeRemoteStep::Failed { error })
    }

    fn refuse_locality(self, locality: Result<Option<bool>, DbError>, step: MakeRemoteStep) -> (next:
        MakeRemote)
        ensures
            match self.locality_fault(locality) {
                None => next == self.at(step),
                Some(fault) => self.refused(fault, next),
            },
    {
        match locality {
            Err(error) => self.refuse(MakeRemoteError::Db(error)),
            Ok(Some(false)) => self.go(step),
            Ok(Some(true)) => {
                let error = MakeRemoteError::AlreadyRemote(
                    self.root_table.clone(),
                    self.root_id.clone(),
                );
                self.refuse(error)
            },
            Ok(None) => {
                let error = MakeRemoteError::UnresolvedLocality(
                    self.root_table.clone(),
                    self.root_id.clone(),
                );
                self.refuse(error)
            },
        }
    }

    fn row_step(&self) -> (step: MakeRemoteStep)
        ensures
            self.turns_to_row(self.sources@.len() as int, step),
    {
        let k: usize = self.sources.len();
        if k >= self.rows.len() {
            return MakeRemoteStep::RecheckLocality;
        }
        let row: &RowBlobRef = &self.rows[k];
        if !row.authority.same(&RowBlobAuthority::Local) || row.stored.is_some() {
            return MakeRemoteStep::Failed {
                error: MakeRemoteError::AlreadyRemote(self.root_table.clone(), self.root_id.clone()),
            };
        }
        match row.blob.provenance {
            Provenance::UserProvided => MakeRemoteStep::ReadExternal,
            Provenance::HostProvided => match self.store_dir.local_blob_path(
                row.blob.namespace.as_str(),
                row.blob.id.as_str(),
            ) {
                Ok(path) => MakeRemoteStep::MeasureSource { path },
                Err(fault) => MakeRemoteStep::Failed {
                    error: MakeRemoteError::Source {
                        blob_id: row.blob.id.clone(),
                        path: "local/".to_owned().concat(row.blob.namespace.as_str()).concat(
                            "/",
                        ).concat(row.blob.id.as_str()),
                        detail: fault.message(),
                    },
                },
            },
        }
    }

    fn turn(self) -> (next: MakeRemote)
        ensures
            next == self.at(next.step),
            self.turns_to_row(self.sources@.len() as int, next.step),
    {
        let step = self.row_step();
        self.go(step)
    }

    /// Takes the reply to the present step and decides the next one.
    pub fn next(self, reply: MakeRemoteReply) -> (next: MakeRemote)
        ensures
            self.follows(reply, next),
    {
        let MakeRemote {
            store_dir,
            root_table,
            root_id,
            gate_column,
            pin,
            rows,
            sources,
            step,
        } = self;
        let working: bool = sources.len() < rows.len();
        let here = MakeRemote {
            store_dir,
            root_table,
            root_id,
            gate_column,
            pin,
            rows,
            sources,
            step: MakeRemoteStep::Done,
        };
        match (step, reply) {
            (MakeRemoteStep::ReadLocality, MakeRemoteReply::Locality(locality)) => here.refuse_locality(
                locality,
                MakeRemoteStep::ReadRows,
            ),
            (MakeRemoteStep::ReadRows, MakeRemoteReply::Rows(Err(error))) => here.refuse(
                MakeRemoteError::Db(error),
            ),
            (MakeRemoteStep::ReadRows, MakeRemoteReply::Rows(Ok(rows))) => {
                if rows.len() == 0 {
                    let error = MakeRemoteError::NothingToMakeRemote(
                        here.root_table.clone(),
                        here.root_id.clone(),
                    );
                    here.refuse(error)
                } else {
                    MakeRemote { rows, sources: Vec::new(), ..here }.turn()
                }
            },
            (MakeRemoteStep::ReadExternal, MakeRemoteReply::External(external)) if working => {
                match external {
                    Err(error) => here.refuse(MakeRemoteError::Db(error)),
                    Ok(None) => {
                        let error = MakeRemoteError::NotExternal(
                            here.rows[here.sources.len()].blob.id.clone(),
                        );
                        here.refuse(error)
                    },
                    Ok(Some(file)) => here.go(MakeRemoteStep::MeasureSource { path: file.path }),
                }
            },
            (MakeRemoteStep::MeasureSource { path }, MakeRemoteReply::Facts(facts)) if working => {
                let row: &RowBlobRef = &here.rows[here.sources.len()];
                let blob_id: String = row.blob.id.clone();
                match facts {
                    Err(detail) => here.refuse(MakeRemoteError::Source { blob_id, path, detail }),
                    Ok((size, hash)) => {
                        if size != row.plaintext_size || !hash.same(&row.plaintext_hash) {
                            let detail: String = facts_words(row, size, hash);
                            here.refuse(MakeRemoteError::Source { blob_id, path, detail })
                        } else {
                            let MakeRemote {
                                store_dir,
                                root_table,
                                root_id,
                                gate_column,
                                pin,
                                rows,
                                sources,
                                step,
                            } = here;
                            let mut sources: Vec<String> = sources;
                            sources.push(path);
                            MakeRemote {
                                store_dir,
                                root_table,
                                root_id,
                                gate_column,
                                pin,
                                rows,
                                sources,
                                step,
                            }.turn()
                        }
                    },
                }
            },
            (MakeRemoteStep::RecheckLocality, MakeRemoteReply::Locality(locality)) => here.refuse_locality(
                locality,
                MakeRemoteStep::RecheckRows,
            ),
            (MakeRemoteStep::RecheckRows, MakeRemoteReply::Rows(Err(error))) => here.refuse(
                MakeRemoteError::Db(error),
            ),
            (MakeRemoteStep::RecheckRows, MakeRemoteReply::Rows(Ok(rows))) => {
                if rows_are_same(&rows, &here.rows) {
                    here.go(MakeRemoteStep::ReadQueue)
                } else {
                    let message: String = "blob rows below ".to_owned().concat(
                        debug_quote(here.root_table.as_str()).as_str(),
                    ).concat("/").concat(debug_quote(here.root_id.as_str()).as_str()).concat(
                        " changed while make_remote verified their sources",
                    );
                    here.refuse(MakeRemoteError::Db(DbError::Message(message)))
                }
            },
            (MakeRemoteStep::ReadQueue, MakeRemoteReply::Queue(Err(error))) => here.refuse(
                MakeRemoteError::Db(error),
            ),
            (MakeRemoteStep::ReadQueue, MakeRemoteReply::Queue(Ok(queue))) => {
                let writes: Vec<Option<i64>> = plan_uploads(&queue, &here.rows);
                here.go(MakeRemoteStep::Enqueue { writes })
            },
            (MakeRemoteStep::Enqueue { .. }, MakeRemoteReply::Db(Err(error))) => here.refuse(
                MakeRemoteError::Db(error),
            ),
            (MakeRemoteStep::Enqueue { .. }, MakeRemoteReply::Db(Ok(_))) => here.go(MakeRemoteStep::Done),
            (step, _) => here.go(step),
        }
    }
}

impl MakeRemote {
    /// What holds at every point: the verified rows are local, and the commit begins only
    /// when every row is verified.
    pub open spec fn in_order(self) -> bool {
        &&& self.sources@.len() <= self.rows@.len()
        &&& forall|i: int|
            0 <= i < self.sources@.len() ==> (#[trigger] self.rows@[i]).authority
                == RowBlobAuthority::Local && self.rows@[i].stored is None
        &&& match self.step {
            MakeRemoteStep::ReadExternal => self.sources@.len() < self.rows@.len() && self.next_is_local(),
            MakeRemoteStep::MeasureSource { .. } => self.sources@.len() < self.rows@.len()
                && self.next_is_local(),
            MakeRemoteStep::RecheckLocality => self.all_verified(),
            MakeRemoteStep::RecheckRows => self.all_verified(),
            MakeRemoteStep::ReadQueue => self.all_verified(),
            MakeRemoteStep::Enqueue { writes } => self.all_verified() && writes@.len()
                == self.rows@.len(),
            MakeRemoteStep::Done => self.all_verified(),
            _ => true,
        }
    }

    /// The row behind the verified ones is local.
    pub open spec fn next_is_local(self) -> bool {
        let row = self.rows@[self.sources@.len() as int];
        row.authority == RowBlobAuthority::Local && row.stored is None
    }

    /// Every row has a verified source, and there is one.
    pub open spec fn all_verified(self) -> bool {
        self.rows@.len() > 0 && self.sources@.len() == self.rows@.len()
    }

    /// A transition that has just started.
    pub open spec fn is_start(self) -> bool {
        self.step is ReadLocality && self.rows@.len() == 0 && self.sources@.len() == 0
    }
}

/// One step of a run.
#[verifier::opaque]
pub open spec fn make_remote_leads(
    before: MakeRemote,
    reply: MakeRemoteReply,
    after: MakeRemote,
) -> bool {
    before.follows(reply, after)
}

/// A run of a transition: each state follows from the one before by some reply.
pub open spec fn is_make_remote_run(states: Seq<MakeRemote>, replies: Seq<MakeRemoteReply>) -> bool {
    &&& states.len() == replies.len() + 1
    &&& states[0].is_start()
    &&& forall|i: int|
        0 <= i < replies.len() ==> make_remote_leads(
            states[i],
            #[trigger] replies[i],
            states[i + 1],
        )
}

proof fn lemma_make_remote_stays_in_order(
    before: MakeRemote,
    reply: MakeRemoteReply,
    after: MakeRemote,
)
    requires
        make_remote_leads(before, reply, after),
        before.in_order(),
        before.step is ReadLocality || before.step is ReadRows || before.rows@.len() > 0,
    ensures
        after.in_order(),
        after.step is ReadLocality || after.step is ReadRows || after.rows@.len() > 0
            || after.step is Failed,
        before.step is Failed ==> after == before,
{
    reveal(make_remote_leads);
}

/// Whatever the operations reply: at every point of a transition the verified rows are
/// local, and uploads are queued only for a root with rows, every one of them with a
/// verified source.
pub proof fn law_make_remote_queues_only_verified_sources(
    states: Seq<MakeRemote>,
    replies: Seq<MakeRemoteReply>,
    at: int,
)
    requires
        is_make_remote_run(states, replies),
        0 <= at < states.len(),
    ensures
        states[at].in_order() || states[at].step is Failed,
        states[at].step is Enqueue ==> states[at].all_verified() && states[at].step->writes@.len()
            == states[at].rows@.len(),
        states[at].step is ReadLocality || states[at].step is ReadRows || states[at].rows@.len() > 0
            || states[at].step is Failed,
    decreases at,
{
    if at > 0 {
        law_make_remote_queues_only_verified_sources(states, replies, at - 1);
        assert(make_remote_leads(states[at - 1], replies[at - 1], states[at - 1 + 1]));
        if states[at - 1].step is Failed {
            lemma_failed_make_remote_stays(states[at - 1], replies[at - 1], states[at]);
        } else {
            lemma_make_remote_stays_in_order(states[at - 1], replies[at - 1], states[at]);
        }
    }
}

proof fn lemma_failed_make_remote_stays(
    before: MakeRemote,
    reply: MakeRemoteReply,
    after: MakeRemote,
)
    requires
        make_remote_leads(before, reply, after),
        before.step is Failed,
    ensures
        after == before,
{
    reveal(make_remote_leads);
}

/// A source counts as verified only when it was measured and both its length and its hash
/// are the ones its row declares.
pub proof fn law_source_is_measured_before_it_is_trusted(
    before: MakeRemote,
    reply: MakeRemoteReply,
    after: MakeRemote,
)
    requires
        before.follows(reply, after),
        after.sources@.len() > before.sources@.len(),
    ensures
        before.step is MeasureSource,
        after.sources@ == before.sources@.push(before.step->path),
        reply matches MakeRemoteReply::Facts(Ok(facts)) && facts.0
            == before.rows@[before.sources@.len() as int].plaintext_size && facts.1
            == before.rows@[before.sources@.len() as int].plaintext_hash,
{
}

/// What a transition asks the queue for leaves exactly one upload for each of its rows,
/// with the source it verified and the pinning it was started with, also where an earlier
/// transition of the root had queued the row already.
pub proof fn law_make_remote_queues_each_row_once(
    before: MakeRemote,
    queue: Vec<OutboxEntry>,
    after: MakeRemote,
    asked: Seq<OutboxEntry>,
)
    requires
        before.step is ReadQueue,
        before.follows(MakeRemoteReply::Queue(Ok(queue)), after),
        is_queue(queue@),
        are_rows(before.rows@),
        are_uploads(queue@, before.rows@, before.sources@, before.pin, asked),
    ensures
        after.step is Enqueue,
        is_queue(after_writes(queue@, after.step->writes@, asked)),
        forall|i: int|
            0 <= i < before.rows@.len() ==> is_queued_once(
                after_writes(queue@, after.step->writes@, asked),
                #[trigger] before.rows@[i],
                before.sources@[i],
                before.pin,
            ),
{
    law_each_row_is_queued_once(queue@, before.rows@, before.sources@, before.pin, asked);
}

/// What cancelling a transition does.
#[derive(Debug, Clone, Copy, PartialEq, Eq, Structural)]
pub enum CancelAction {
    /// Mark the intent as cancelling.
    MarkCancelling,
    /// Nothing: it is cancelling already, or it is complete and its objects are published.
    Nothing,
}

/// What cancelling does, by how far the transition has come: it is refused once the
/// publishing write exists, since that write owns the outcome. Without an intent, a root
/// that is remote has completed its transition, and there is nothing to cancel.
pub open spec fn cancellation(
    state: Option<MakeRemoteIntentState>,
    locality: Option<bool>,
    root_table: Seq<char>,
    root_id: Seq<char>,
) -> Result<CancelAction, Seq<char>> {
    let name = "make_remote for "@ + debug_text(root_table) + "/"@ + debug_text(root_id);
    match state {
        Some(MakeRemoteIntentState::Uploading) => Ok(CancelAction::MarkCancelling),
        Some(MakeRemoteIntentState::Cancelling) => Ok(CancelAction::Nothing),
        Some(MakeRemoteIntentState::Publishing(write_id)) => Err(
            name + " is already publishing as "@ + write_id@,
        ),
        None => if locality == Some(true) {
            Ok(CancelAction::Nothing)
        } else {
            Err(name + " does not exist"@)
        },
    }
}

/// Decides the cancellation of a transition. The table is checked first; then the recorded
/// intent decides, and where there is none, whether the root is remote.
pub fn cancel_make_remote(
    tables: &Vec<SyncedTable>,
    root_table: &str,
    root_id: &str,
    intent: Result<Option<MakeRemoteIntentState>, DbError>,
    locality: Result<Option<bool>, DbError>,
) -> (decided: Result<CancelAction, MakeRemoteError>)
    ensures
        match gated_root(tables@, root_table@) {
            Err(fault) => decided matches Err(error) && error@ == fault,
            Ok(_) => match intent {
                Err(fault) => decided == Err::<CancelAction, MakeRemoteError>(
                    MakeRemoteError::Db(fault),
                ),
                Ok(state) => match locality {
                    Err(fault) if state is None => decided == Err::<CancelAction, MakeRemoteError>(
                        MakeRemoteError::Db(fault),
                    ),
                    _ => match cancellation(
                        state,
                        match locality {
                            Ok(remote) => remote,
                            Err(_) => None,
                        },
                        root_table@,
                        root_id@,
                    ) {
                        Ok(action) => decided == Ok::<CancelAction, MakeRemoteError>(action),
                        Err(message) => decided matches Err(error) && error@
                            == MakeRemoteErrorView::Db(DbErrorView::Message(message)),
                    },
                },
            },
        },
{
    match gated_root_gate_col(tables, root_table) {
        Err(error) => return Err(error),
        Ok(_) => {},
    }
    let state = match intent {
        Err(error) => return Err(MakeRemoteError::Db(error)),
        Ok(state) => state,
    };
    let name: String = "make_remote for ".to_owned().concat(
        debug_quote(root_table).as_str(),
    ).concat("/").concat(debug_quote(root_id).as_str());
    match state {
        Some(MakeRemoteIntentState::Uploading) => Ok(CancelAction::MarkCancelling),
        Some(MakeRemoteIntentState::Cancelling) => Ok(CancelAction::Nothing),
        Some(MakeRemoteIntentState::Publishing(write_id)) => Err(
            MakeRemoteError::Db(
                DbError::Message(
                    name.concat(" is already publishing as ").concat(write_id.as_str()),
                ),
            ),
        ),
        None => match locality {
            Err(error) => Err(MakeRemoteError::Db(error)),
            Ok(Some(true)) => Ok(CancelAction::Nothing),
            Ok(_) => Err(MakeRemoteError::Db(DbError::Message(name.concat(" does not exist")))),
        },
    }
}

/// What the finalizer of a created upload does.
#[derive(Debug)]
pub enum Finalization {
    /// Nothing yet.
    Waiting,
    /// The transition was cancelled.
    Cancelled,
    /// Publish the root: flip this gate on, and drop the user's files of these rows.
    Publish { gate_column: String, external: Vec<RowBlobRef> },
}

/// Every entry is an upload that is recorded as Created.
pub open spec fn all_created(entries: Seq<OutboxEntry>) -> bool {
    forall|i: int|
        0 <= i < entries.len() ==> ((#[trigger] entries[i]).operation matches OutboxOperation::Upload {
            state: OutboxUploadState::Created { .. },
            ..
        })
}

/// The rows whose blob is a user's own file, in order.
pub open spec fn user_rows(rows: Seq<RowBlobRef>) -> Seq<RowBlobRef> {
    rows.filter(|row: RowBlobRef| row.blob.provenance == Provenance::UserProvided)
}

/// Why a created upload cannot be finalized, `Ok(None)` where it is to wait, and
/// `Ok(Some(..))` where its root is published.
pub open spec fn finalization_fault(
    entry: OutboxEntry,
    tables: Seq<SyncedTable>,
    rows: Seq<RowBlobRef>,
    entries: Seq<OutboxEntry>,
    root_table: Seq<char>,
    root_id: Seq<char>,
) -> Result<Option<Seq<char>>, Seq<char>> {
    if rows.len() != entries.len() {
        Err(
            "make_remote root "@ + debug_text(root_table) + "/"@ + debug_text(root_id) + " has "@
                + decimal(rows.len()) + " blob rows but "@ + decimal(entries.len())
                + " exact upload journals"@,
        )
    } else if !all_created(entries) {
        Ok(None)
    } else if !(exists|i: int| 0 <= i < entries.len() && (#[trigger] entries[i])@ == entry@) {
        Err("Created upload changed before make_remote finalization"@)
    } else {
        match gate_of(tables, root_table) {
            None => Err(
                "make_remote root "@ + debug_text(root_table) + " has no boolean gate column"@,
            ),
            Some(column) => Ok(Some(column)),
        }
    }
}

/// What finalizing a created upload comes to, from what the database says about it.
pub open spec fn finalized(
    entry: OutboxEntry,
    tables: Seq<SyncedTable>,
    root: Result<Option<(String, String)>, DbError>,
    intent: Result<Option<MakeRemoteIntentState>, DbError>,
    rows: Result<Vec<RowBlobRef>, DbError>,
    entries: Result<Vec<OutboxEntry>, DbError>,
    result: Result<Finalization, DbError>,
) -> bool {
    match entry.operation {
        OutboxOperation::Delete { .. } => result matches Err(error) && error@
            == DbErrorView::Message(
            "make_remote finalizer received a non-upload outbox entry"@,
        ),
        OutboxOperation::Upload { root_table, root_id, row, state, .. } => {
            let name = "upload row "@ + debug_text(row.table@) + "/"@ + debug_text(row.row_id@);
            let root_name = debug_text(root_table@) + "/"@ + debug_text(root_id@);
            if !(state is Created) {
                result matches Err(error) && error@ == DbErrorView::Message(
                    "make_remote finalizer requires a Created exact upload"@,
                )
            } else {
                match root {
                    Err(fault) => result == Err::<Finalization, DbError>(fault),
                    Ok(None) => result matches Err(error) && error@ == DbErrorView::Message(
                        name + " has no gated transition root"@,
                    ),
                    Ok(Some(found)) => if found.0@ != root_table@ || found.1@ != root_id@ {
                        result matches Err(error) && error@ == DbErrorView::Message(
                            name + " moved from make_remote root "@ + root_name + " to "@
                                + debug_text(found.0@) + "/"@ + debug_text(found.1@),
                        )
                    } else {
                        match intent {
                            Err(fault) => result == Err::<Finalization, DbError>(fault),
                            Ok(None) => result matches Err(error) && error@ == DbErrorView::Message(
                                "upload for "@ + root_name + " has no make_remote intent"@,
                            ),
                            Ok(Some(MakeRemoteIntentState::Publishing(_))) => result == Ok::<
                                Finalization,
                                DbError,
                            >(Finalization::Waiting),
                            Ok(Some(MakeRemoteIntentState::Cancelling)) => result == Ok::<
                                Finalization,
                                DbError,
                            >(Finalization::Cancelled),
                            Ok(Some(MakeRemoteIntentState::Uploading)) => match (rows, entries) {
                                (Err(fault), _) => result == Err::<Finalization, DbError>(fault),
                                (Ok(_), Err(fault)) => result == Err::<Finalization, DbError>(
                                    fault,
                                ),
                                (Ok(rows), Ok(entries)) => match finalization_fault(
                                    entry,
                                    tables,
                                    rows@,
                                    entries@,
                                    root_table@,
                                    root_id@,
                                ) {
                                    Err(message) => result matches Err(error) && error@
                                        == DbErrorView::Message(message),
                                    Ok(None) => result == Ok::<Finalization, DbError>(
                                        Finalization::Waiting,
                                    ),
                                    Ok(Some(column)) => result matches Ok(
                                        Finalization::Publish { gate_column, external },
                                    ) && gate_column@ == column && external@ == user_rows(rows@),
                                },
                            },
                        }
                    },
                }
            }
        },
    }
}

fn entries_are_created(entries: &Vec<OutboxEntry>) -> (created: bool)
    ensures
        created == all_created(entries@),
{
    let mut i: usize = 0;
    while i < entries.len()
        invariant
            i <= entries.len(),
            forall|j: int|
                0 <= j < i ==> ((#[trigger] entries@[j]).operation matches OutboxOperation::Upload {
                    state: OutboxUploadState::Created { .. },
                    ..
                }),
        decreases entries.len() - i,
    {
        let created: bool = match &entries[i].operation {
            OutboxOperation::Upload { state, .. } => match state {
                OutboxUploadState::Created { .. } => true,
                _ => false,
            },
            OutboxOperation::Delete { .. } => false,
        };
        if !created {
            assert(!(entries@[i as int].operation matches OutboxOperation::Upload {
                state: OutboxUploadState::Created { .. },
                ..
            }));
            return false;
        }
        i = i + 1;
    }
    true
}

fn holds_entry(entries: &Vec<OutboxEntry>, entry: &OutboxEntry) -> (found: bool)
    ensures
        found == exists|i: int| 0 <= i < entries@.len() && (#[trigger] entries@[i])@ == entry@,
{
    let mut i: usize = 0;
    while i < entries.len()
        invariant
            i <= entries.len(),
            forall|j: int| 0 <= j < i ==> (#[trigger] entries@[j])@ != entry@,
        decreases entries.len() - i,
    {
        if entries[i].same(entry) {
            assert(entries@[i as int]@ == entry@);
            return true;
        }
        i = i + 1;
    }
    false
}

fn pick_user_rows(rows: &Vec<RowBlobRef>) -> (picked: Vec<RowBlobRef>)
    ensures
        picked@ == user_rows(rows@),
{
    let mut picked: Vec<RowBlobRef> = Vec::new();
    let mut i: usize = 0;
    proof {
        reveal(Seq::filter);
        assert(rows@.take(0) =~= Seq::<RowBlobRef>::empty());
        assert(user_rows(rows@.take(0)) =~= Seq::<RowBlobRef>::empty());
    }
    while i < rows.len()
        invariant
            i <= rows.len(),
            picked@ == user_rows(rows@.take(i as int)),
        decreases rows.len() - i,
    {
        proof {
            reveal(Seq::filter);
            assert(rows@.take(i + 1).drop_last() =~= rows@.take(i as int));
            assert(rows@.take(i + 1).last() == rows@[i as int]);
        }
        if let Provenance::UserProvided = rows[i].blob.provenance {
            picked.push(rows[i].clone());
        }
        i = i + 1;
    }
    assert(rows@.take(rows@.len() as int) =~= rows@);
    picked
}

/// Completes a created upload: its root is published when every blob-bearing row below it
/// has a created upload. The arguments are what the database says in one read: the row's
/// root, the intent, and the rows and the upload entries below the root.
pub fn finalize_created_upload(
    entry: &OutboxEntry,
    tables: &Vec<SyncedTable>,
    root: Result<Option<(String, String)>, DbError>,
    intent: Result<Option<MakeRemoteIntentState>, DbError>,
    rows: Result<Vec<RowBlobRef>, DbError>,
    entries: Result<Vec<OutboxEntry>, DbError>,
) -> (result: Result<Finalization, DbError>)
    ensures
        finalized(*entry, tables@, root, intent, rows, entries, result),
{
    match &entry.operation {
        OutboxOperation::Delete { .. } => Err(
            DbError::Message("make_remote finalizer received a non-upload outbox entry".to_owned()),
        ),
        OutboxOperation::Upload { root_table, root_id, row, state, .. } => {
            match state {
                OutboxUploadState::Created { .. } => {},
                _ => return Err(
                    DbError::Message(
                        "make_remote finalizer requires a Created exact upload".to_owned(),
                    ),
                ),
            }
            let name: String = "upload row ".to_owned().concat(
                debug_quote(row.table.as_str()).as_str(),
            ).concat("/").concat(debug_quote(row.row_id.as_str()).as_str());
            let root_name: String = debug_quote(root_table.as_str()).concat("/").concat(
                debug_quote(root_id.as_str()).as_str(),
            );
            let found = match root {
                Err(error) => return Err(error),
                Ok(None) => return Err(
                    DbError::Message(name.concat(" has no gated transition root")),
                ),
                Ok(Some(found)) => found,
            };
            if found.0 != *root_table || found.1 != *root_id {
                return Err(
                    DbError::Message(
                        name.concat(" moved from make_remote root ").concat(
                            root_name.as_str(),
                        ).concat(" to ").concat(debug_quote(found.0.as_str()).as_str()).concat(
                            "/",
                        ).concat(debug_quote(found.1.as_str()).as_str()),
                    ),
                );
            }
            match intent {
                Err(error) => return Err(error),
                Ok(None) => return Err(
                    DbError::Message(
                        "upload for ".to_owned().concat(root_name.as_str()).concat(
                            " has no make_remote intent",
                        ),
                    ),
                ),
                Ok(Some(MakeRemoteIntentState::Publishing(_))) => return Ok(Finalization::Waiting),
                Ok(Some(MakeRemoteIntentState::Cancelling)) => return Ok(Finalization::Cancelled),
                Ok(Some(MakeRemoteIntentState::Uploading)) => {},
            }
            let rows = match rows {
                Err(error) => return Err(error),
                Ok(rows) => rows,
            };
            let entries = match entries {
                Err(error) => return Err(error),
                Ok(entries) => entries,
            };
            if rows.len() != entries.len() {
                return Err(
                    DbError::Message(
                        "make_remote root ".to_owned().concat(
                            debug_quote(root_table.as_str()).as_str(),
                        ).concat("/").concat(debug_quote(root_id.as_str()).as_str()).concat(
                            " has ",
                        ).concat(decimal_text(rows.len() as u64).as_str()).concat(
                            " blob rows but ",
                        ).concat(decimal_text(entries.len() as u64).as_str()).concat(
                            " exact upload journals",
                        ),
                    ),
                );
            }
            if !entries_are_created(&entries) {
                return Ok(Finalization::Waiting);
            }
            if !holds_entry(&entries, entry) {
                return Err(
                    DbError::Message(
                        "Created upload changed before make_remote finalization".to_owned(),
                    ),
                );
            }
            match gate_column(tables, root_table.as_str()) {
                None => Err(
                    DbError::Message(
                        "make_remote root ".to_owned().concat(
                            debug_quote(root_table.as_str()).as_str(),
                        ).concat(" has no boolean gate column"),
                    ),
                ),
                Some(column) => Ok(
                    Finalization::Publish {
                        gate_column: column.clone(),
                        external: pick_user_rows(&rows),
                    },
                ),
            }
        },
    }
}

/// A root is published only where its transition is uploading, the upload's row still
/// belongs to it, and every blob-bearing row below it has an upload that is recorded as
/// Created, this very upload among them.
pub proof fn law_publish_needs_every_upload_created(
    entry: OutboxEntry,
    tables: Seq<SyncedTable>,
    root: Result<Option<(String, String)>, DbError>,
    intent: Result<Option<MakeRemoteIntentState>, DbError>,
    rows: Result<Vec<RowBlobRef>, DbError>,
    entries: Result<Vec<OutboxEntry>, DbError>,
    result: Result<Finalization, DbError>,
)
    requires
        finalized(entry, tables, root, intent, rows, entries, result),
        result matches Ok(Finalization::Publish { .. }),
    ensures
        intent matches Ok(Some(MakeRemoteIntentState::Uploading)),
        root matches Ok(Some(found)) && found.0@ == entry.operation->root_table@ && found.1@
            == entry.operation->root_id@,
        rows is Ok && entries is Ok,
        rows->Ok_0@.len() == entries->Ok_0@.len(),
        all_created(entries->Ok_0@),
        exists|i: int| 0 <= i < entries->Ok_0@.len() && (#[trigger] entries->Ok_0@[i])@ == entry@,
{
}

/// How far a transition is from its end: its phase, and what is left of the phase.
pub open spec fn make_remote_left(transition: MakeRemote) -> (nat, int) {
    let unverified = transition.rows@.len() - transition.sources@.len();
    match transition.step {
        MakeRemoteStep::ReadLocality => (7, 0),
        MakeRemoteStep::ReadRows => (6, 0),
        MakeRemoteStep::ReadExternal => (5, 2 * unverified + 1),
        MakeRemoteStep::MeasureSource { .. } => (5, 2 * unverified),
        MakeRemoteStep::RecheckLocality => (4, 0),
        MakeRemoteStep::RecheckRows => (3, 0),
        MakeRemoteStep::ReadQueue => (2, 0),
        MakeRemoteStep::Enqueue { .. } => (1, 0),
        MakeRemoteStep::Done => (0, 0),
        MakeRemoteStep::Failed { .. } => (0, 0),
    }
}

/// Every transition ends: each reply that answers the step brings it nearer to its end,
/// which is a phase that is over or a part of one, and one that does not changes nothing.
pub proof fn law_make_remote_ends(before: MakeRemote, reply: MakeRemoteReply, after: MakeRemote)
    requires
        before.follows(reply, after),
    ensures
        after == before || make_remote_left(after).0 < make_remote_left(before).0 || (
        make_remote_left(after).0 == make_remote_left(before).0 && 0 <= make_remote_left(after).1
            < make_remote_left(before).1),
{
}

} // verus!
