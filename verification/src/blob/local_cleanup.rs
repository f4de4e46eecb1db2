//! Durable deletion of obsolete copies on this device.
//!
//! A copy that no live row needs is recorded as a cleanup obligation in the transaction
//! that makes it obsolete, and the obligation is kept until the file is gone.

use std::collections::VecDeque;
use vstd::prelude::*;
use vstd::string::*;

use crate::blob::cleanup_laws::{is_cleanup_start, is_started_from, lemma_next_cleanup_skips_none};
use crate::database::{DbError, DbErrorView};
use crate::digest::{hex_text, is_object_hash_text, law_object_hash_text_round_trip, ObjectHash};
use crate::store_dir::texts;
use crate::text::{decimal, decimal_text, same_text};

verus! {

/// Which copies of a blob an obligation is about.
#[derive(Debug)]
pub enum LocalBlobCleanupIdentity {
    /// The local store's copy.
    Local,
    /// Whatever copies a row had; resolved before it is recorded.
    Row { table: String, row_id: String },
    /// The cached copies of one exact locator.
    Exact(ObjectHash),
}

/// What a [`LocalBlobCleanupIdentity`] says.
pub ghost enum IdentityView {
    Local,
    Row { table: Seq<char>, row_id: Seq<char> },
    Exact(ObjectHash),
}

impl View for LocalBlobCleanupIdentity {
    type V = IdentityView;

    open spec fn view(&self) -> IdentityView {
        match self {
            LocalBlobCleanupIdentity::Local => IdentityView::Local,
            LocalBlobCleanupIdentity::Row { table, row_id } => IdentityView::Row {
                table: table@,
                row_id: row_id@,
            },
            LocalBlobCleanupIdentity::Exact(hash) => IdentityView::Exact(*hash),
        }
    }
}

/// A request to clean up copies of a blob.
#[derive(Debug)]
pub struct LocalBlobCleanupIntent {
    /// The blob's namespace.
    pub namespace: String,
    /// The blob's id.
    pub blob_id: String,
    /// Which copies.
    pub identity: LocalBlobCleanupIdentity,
}

/// The text that a durable identity is kept as, or `None` where it is not durable.
pub open spec fn persisted_text(identity: IdentityView) -> Option<Seq<char>> {
    match identity {
        IdentityView::Local => Some("local"@),
        IdentityView::Exact(hash) => Some(hex_text(hash@)),
        IdentityView::Row { .. } => None,
    }
}

/// The identity that a kept text stands for, or `None` where it stands for none.
pub open spec fn persisted_identity_of(text: Seq<char>) -> Option<IdentityView> {
    if text == "local"@ {
        Some(IdentityView::Local)
    } else if is_object_hash_text(text) {
        Some(IdentityView::Exact(choose|hash: ObjectHash| hex_text(hash@) == text))
    } else {
        None
    }
}

/// Every durable identity is read back from the text it is kept as.
pub proof fn law_persisted_identity_round_trip(identity: IdentityView)
    requires
        persisted_text(identity) is Some,
    ensures
        persisted_identity_of(persisted_text(identity)->0) == Some(identity),
{
    reveal_strlit("local");
    if let IdentityView::Exact(hash) = identity {
        law_object_hash_text_round_trip(hash);
        let text = hex_text(hash@);
        assert(text.len() == 64 && "local"@.len() == 5);
        let chosen = choose|h: ObjectHash| hex_text(h@) == text;
        assert(hex_text(chosen@) == text);
    }
}

impl LocalBlobCleanupIntent {
    /// A request for the local store's copy.
    pub fn local(namespace: String, blob_id: String) -> (intent: LocalBlobCleanupIntent)
        ensures
            intent == (LocalBlobCleanupIntent {
                namespace,
                blob_id,
                identity: LocalBlobCleanupIdentity::Local,
            }),
    {
        LocalBlobCleanupIntent { namespace, blob_id, identity: LocalBlobCleanupIdentity::Local }
    }

    /// A request for whatever copies a row had.
    pub fn for_row(namespace: String, blob_id: String, table: String, row_id: String) -> (intent:
        LocalBlobCleanupIntent)
        ensures
            intent == (LocalBlobCleanupIntent {
                namespace,
                blob_id,
                identity: LocalBlobCleanupIdentity::Row { table, row_id },
            }),
    {
        LocalBlobCleanupIntent {
            namespace,
            blob_id,
            identity: LocalBlobCleanupIdentity::Row { table, row_id },
        }
    }

    /// A request for the cached copies of one exact locator.
    pub fn exact(namespace: String, blob_id: String, locator_hash: ObjectHash) -> (intent:
        LocalBlobCleanupIntent)
        ensures
            intent == (LocalBlobCleanupIntent {
                namespace,
                blob_id,
                identity: LocalBlobCleanupIdentity::Exact(locator_hash),
            }),
    {
        LocalBlobCleanupIntent {
            namespace,
            blob_id,
            identity: LocalBlobCleanupIdentity::Exact(locator_hash),
        }
    }

    /// The text that the identity is kept as; a row-bound one is not durable.
    pub fn persisted_identity(&self) -> (text: Result<String, DbError>)
        ensures
            match persisted_text(self.identity@) {
                Some(kept) => text matches Ok(t) && t@ == kept,
                None => text matches Err(error) && error@ == DbErrorView::Message(
                    "row-bound local cleanup identity is not durable"@,
                ),
            },
    {
        match &self.identity {
            LocalBlobCleanupIdentity::Local => Ok("local".to_owned()),
            LocalBlobCleanupIdentity::Exact(locator_hash) => Ok(locator_hash.to_text()),
            LocalBlobCleanupIdentity::Row { .. } => Err(
                DbError::Message("row-bound local cleanup identity is not durable".to_owned()),
            ),
        }
    }

    /// Reads a recorded obligation.
    pub fn from_persisted(namespace: String, blob_id: String, identity: String) -> (intent: Result<
        LocalBlobCleanupIntent,
        String,
    >)
        ensures
            match persisted_identity_of(identity@) {
                Some(known) => intent matches Ok(i) && i.namespace == namespace && i.blob_id
                    == blob_id && i.identity@ == known,
                None => intent matches Err(reason) && reason@
                    == "invalid exact local cleanup identity: "@
                    + "object hash must be exactly 64 lowercase hexadecimal characters"@,
            },
    {
        if same_text(identity.as_str(), "local") {
            return Ok(LocalBlobCleanupIntent::local(namespace, blob_id));
        }
        match ObjectHash::parse(identity.as_str()) {
            Ok(locator_hash) => {
                proof {
                    law_object_hash_text_round_trip(locator_hash);
                    let chosen = choose|h: ObjectHash| hex_text(h@) == identity@;
                    assert(hex_text(chosen@) == identity@);
                }
                Ok(LocalBlobCleanupIntent::exact(namespace, blob_id, locator_hash))
            },
            Err(error) => Err(
                "invalid exact local cleanup identity: ".to_owned().concat(
                    error.message().as_str(),
                ),
            ),
        }
    }

    /// The blob's namespace.
    pub fn namespace(&self) -> (namespace: &str)
        ensures
            namespace@ == self.namespace@,
    {
        self.namespace.as_str()
    }

    /// The blob's id.
    pub fn blob_id(&self) -> (blob_id: &str)
        ensures
            blob_id@ == self.blob_id@,
    {
        self.blob_id.as_str()
    }
}

/// How many different texts a list holds.
pub open spec fn distinct_count(hashes: Seq<Seq<char>>) -> nat {
    hashes.to_set().len()
}

fn count_distinct(hashes: &Vec<String>) -> (count: usize)
    ensures
        count == distinct_count(texts(hashes@)),
        count <= hashes@.len(),
{
    let ghost all = texts(hashes@);
    let mut count: usize = 0;
    let mut i: usize = 0;
    assert(all.take(0) =~= Seq::<Seq<char>>::empty());
    assert(all.take(0).to_set() =~= Set::<Seq<char>>::empty());
    while i < hashes.len()
        invariant
            i <= hashes.len(),
            count <= i,
            all == texts(hashes@),
            count == all.take(i as int).to_set().len(),
            all.take(i as int).to_set().finite(),
        decreases hashes.len() - i,
    {
        let mut seen: bool = false;
        let mut j: usize = 0;
        while j < i
            invariant
                j <= i < hashes.len(),
                all == texts(hashes@),
                seen == exists|k: int| 0 <= k < j && all[k] == all[i as int],
            decreases i - j,
        {
            assert(all[j as int] == hashes@[j as int]@ && all[i as int] == hashes@[i as int]@);
            if hashes[j] == hashes[i] {
                seen = true;
            }
            j = j + 1;
        }
        proof {
            let shorter = all.take(i as int);
            let longer = all.take(i + 1);
            let last = all[i as int];
            assert(longer =~= shorter.push(last));
            assert(longer.to_set() =~= shorter.to_set().insert(last)) by {
                assert forall|x: Seq<char>| longer.contains(x) <==> shorter.contains(x) || x
                    == last by {
                    if longer.contains(x) {
                        let k = choose|k: int| 0 <= k < longer.len() && #[trigger] longer[k] == x;
                        assert(k < shorter.len() ==> shorter[k] == x);
                    }
                    if shorter.contains(x) {
                        let k = choose|k: int| 0 <= k < shorter.len() && #[trigger] shorter[k] == x;
                        assert(longer[k] == x);
                    }
                    if x == last {
                        assert(longer[i as int] == x);
                    }
                }
            }
            if seen {
                let k = choose|k: int| 0 <= k < i && all[k] == all[i as int];
                assert(shorter[k] == last);
                assert(shorter.contains(last));
            } else if shorter.contains(last) {
                let k = choose|k: int| 0 <= k < shorter.len() && #[trigger] shorter[k] == last;
                assert(all[k] == all[i as int]);
            }
        }
        if !seen {
            count = count + 1;
        }
        i = i + 1;
    }
    assert(all.take(all.len() as int) =~= all);
    count
}

/// The one locator that a row is bound to, by its locator texts: a row without bindings
/// has none, and one with several different bindings is refused.
pub open spec fn bound_locator(table: Seq<char>, row_id: Seq<char>, hashes: Seq<Seq<char>>) -> Result<
    Option<ObjectHash>,
    Seq<char>,
> {
    if distinct_count(hashes) == 0 {
        Ok(None)
    } else if distinct_count(hashes) == 1 {
        if is_object_hash_text(hashes[0]) {
            Ok(Some(choose|hash: ObjectHash| hex_text(hash@) == hashes[0]))
        } else {
            Err(
                "parse local cleanup locator hash: "@
                    + "object hash must be exactly 64 lowercase hexadecimal characters"@,
            )
        }
    } else {
        Err(
            "local cleanup for "@ + table + "."@ + row_id + " has "@ + decimal(
                distinct_count(hashes),
            ) + " distinct exact locator bindings"@,
        )
    }
}

/// Decides which locator a row is bound to.
pub fn exact_locator_hash(table: &str, row_id: &str, hashes: &Vec<String>) -> (found: Result<
    Option<ObjectHash>,
    DbError,
>)
    ensures
        match bound_locator(table@, row_id@, texts(hashes@)) {
            Ok(hash) => found == Ok::<Option<ObjectHash>, DbError>(hash),
            Err(message) => found matches Err(error) && error@ == DbErrorView::Message(message),
        },
{
    let count: usize = count_distinct(hashes);
    if count == 0 {
        return Ok(None);
    }
    if count > 1 {
        return Err(
            DbError::Message(
                "local cleanup for ".to_owned().concat(table).concat(".").concat(row_id).concat(
                    " has ",
                ).concat(decimal_text(count as u64).as_str()).concat(
                    " distinct exact locator bindings",
                ),
            ),
        );
    }
    assert(texts(hashes@)[0] == hashes@[0]@);
    match ObjectHash::parse(hashes[0].as_str()) {
        Ok(hash) => {
            proof {
                law_object_hash_text_round_trip(hash);
                let chosen = choose|h: ObjectHash| hex_text(h@) == texts(hashes@)[0];
                assert(hex_text(chosen@) == texts(hashes@)[0]);
            }
            Ok(Some(hash))
        },
        Err(error) => Err(
            DbError::Message(
                "parse local cleanup locator hash: ".to_owned().concat(error.message().as_str()),
            ),
        ),
    }
}

/// The operation that recording obsolete copies performs next, in the transaction that
/// changes the carrying rows.
#[derive(Debug)]
pub enum RecordStep {
    /// Read the locators that the row is bound to.
    ReadBindings { table: String, row_id: String },
    /// Ask whether a live row needs the cached copies of this exact locator.
    CheckExact { hash: ObjectHash },
    /// Record the obligation for the cached copies of this exact locator.
    RecordExact { intent: LocalBlobCleanupIntent },
    /// Ask whether a live row needs the local store's copy.
    CheckLocal,
    /// Record the obligation for the local store's copy.
    RecordLocal { intent: LocalBlobCleanupIntent },
    /// Every copy that no live row needs has its obligation.
    Done,
    /// The transaction fails.
    Failed { error: DbError },
}

/// What the operation answered.
#[derive(Debug)]
pub enum RecordReply {
    Bindings(Result<Vec<String>, DbError>),
    Referenced(Result<bool, DbError>),
    Recorded(Result<(), DbError>),
}

/// Recording the copies of a blob that no live row needs any more. Each kind of copy is
/// judged by itself: another live row with the same blob id keeps only the copies it
/// needs.
#[derive(Debug)]
pub struct RecordObsoleteCopies {
    /// The blob's namespace.
    pub namespace: String,
    /// The blob's id.
    pub blob_id: String,
    /// What to perform next.
    pub step: RecordStep,
}

impl RecordObsoleteCopies {
    /// The same work at another step.
    pub open spec fn at(self, step: RecordStep) -> RecordObsoleteCopies {
        RecordObsoleteCopies { step, ..self }
    }

    /// The obligation for one exact locator.
    pub open spec fn exact_intent(self, hash: ObjectHash) -> LocalBlobCleanupIntent {
        LocalBlobCleanupIntent {
            namespace: self.namespace,
            blob_id: self.blob_id,
            identity: LocalBlobCleanupIdentity::Exact(hash),
        }
    }

    /// The obligation for the local store's copy.
    pub open spec fn local_intent(self) -> LocalBlobCleanupIntent {
        LocalBlobCleanupIntent {
            namespace: self.namespace,
            blob_id: self.blob_id,
            identity: LocalBlobCleanupIdentity::Local,
        }
    }

    /// What follows on each reply. A reply that does not answer the step changes nothing.
    pub open spec fn follows(self, reply: RecordReply, next: RecordObsoleteCopies) -> bool {
        match (self.step, reply) {
            (RecordStep::ReadBindings { table, row_id }, RecordReply::Bindings(bindings)) => {
                match bindings {
                    Err(error) => next == self.at(RecordStep::Failed { error }),
                    Ok(hashes) => match bound_locator(table@, row_id@, texts(hashes@)) {
                        Err(message) => next == self.at(next.step) && (
                        next.step matches RecordStep::Failed { error } && error@
                            == DbErrorView::Message(message)),
                        Ok(Some(hash)) => next == self.at(RecordStep::CheckExact { hash }),
                        Ok(None) => next == self.at(RecordStep::CheckLocal),
                    },
                }
            },
            (RecordStep::CheckExact { hash }, RecordReply::Referenced(referenced)) => next
                == self.at(
                match referenced {
                    Err(error) => RecordStep::Failed { error },
                    Ok(true) => RecordStep::CheckLocal,
                    Ok(false) => RecordStep::RecordExact { intent: self.exact_intent(hash) },
                },
            ),
            (RecordStep::RecordExact { .. }, RecordReply::Recorded(recorded)) => next == self.at(
                match recorded {
                    Err(error) => RecordStep::Failed { error },
                    Ok(_) => RecordStep::CheckLocal,
                },
            ),
            (RecordStep::CheckLocal, RecordReply::Referenced(referenced)) => next == self.at(
                match referenced {
                    Err(error) => RecordStep::Failed { error },
                    Ok(true) => RecordStep::Done,
                    Ok(false) => RecordStep::RecordLocal { intent: self.local_intent() },
                },
            ),
            (RecordStep::RecordLocal { .. }, RecordReply::Recorded(recorded)) => next == self.at(
                match recorded {
                    Err(error) => RecordStep::Failed { error },
                    Ok(_) => RecordStep::Done,
                },
            ),
            _ => next == self,
        }
    }

    /// Starts from a request. An exact identity is durable already and is refused.
    pub fn start(intent: LocalBlobCleanupIntent) -> (work: RecordObsoleteCopies)
        ensures
            is_started_from(work, intent),
            work.namespace == intent.namespace,
            work.blob_id == intent.blob_id,
            match intent.identity {
                LocalBlobCleanupIdentity::Local => work.step is CheckLocal,
                LocalBlobCleanupIdentity::Exact(_) => work.step matches RecordStep::Failed { error }
                    && error@ == DbErrorView::Message(
                    "exact local cleanup identity is already durable"@,
                ),
                LocalBlobCleanupIdentity::Row { table, row_id } => work.step == (
                RecordStep::ReadBindings { table, row_id }),
            },
    {
        let step = match intent.identity {
            LocalBlobCleanupIdentity::Local => RecordStep::CheckLocal,
            LocalBlobCleanupIdentity::Exact(_) => RecordStep::Failed {
                error: DbError::Message(
                    "exact local cleanup identity is already durable".to_owned(),
                ),
            },
            LocalBlobCleanupIdentity::Row { table, row_id } => RecordStep::ReadBindings {
                table,
                row_id,
            },
        };
        RecordObsoleteCopies { namespace: intent.namespace, blob_id: intent.blob_id, step }
    }

    fn go(self, step: RecordStep) -> (next: RecordObsoleteCopies)
        ensures
            next == self.at(step),
    {
        RecordObsoleteCopies { step, ..self }
    }

    /// Takes the reply to the present step and decides the next one.
    pub fn next(self, reply: RecordReply) -> (next: RecordObsoleteCopies)
        ensures
            self.follows(reply, next),
    {
        let RecordObsoleteCopies { namespace, blob_id, step } = self;
        let here = RecordObsoleteCopies { namespace, blob_id, step: RecordStep::Done };
        match (step, reply) {
            (RecordStep::ReadBindings { table, row_id }, RecordReply::Bindings(bindings)) => {
                match bindings {
                    Err(error) => here.go(RecordStep::Failed { error }),
                    Ok(hashes) => match exact_locator_hash(
                        table.as_str(),
                        row_id.as_str(),
                        &hashes,
                    ) {
                        Err(error) => here.go(RecordStep::Failed { error }),
                        Ok(Some(hash)) => here.go(RecordStep::CheckExact { hash }),
                        Ok(None) => here.go(RecordStep::CheckLocal),
                    },
                }
            },
            (RecordStep::CheckExact { hash }, RecordReply::Referenced(referenced)) => {
                match referenced {
                    Err(error) => here.go(RecordStep::Failed { error }),
                    Ok(true) => here.go(RecordStep::CheckLocal),
                    Ok(false) => {
                        let intent = LocalBlobCleanupIntent::exact(
                            here.namespace.clone(),
                            here.blob_id.clone(),
                            hash,
                        );
                        here.go(RecordStep::RecordExact { intent })
                    },
                }
            },
            (RecordStep::RecordExact { .. }, RecordReply::Recorded(recorded)) => match recorded {
                Err(error) => here.go(RecordStep::Failed { error }),
                Ok(_) => here.go(RecordStep::CheckLocal),
            },
            (RecordStep::CheckLocal, RecordReply::Referenced(referenced)) => match referenced {
                Err(error) => here.go(RecordStep::Failed { error }),
                Ok(true) => here.go(RecordStep::Done),
                Ok(false) => {
                    let intent = LocalBlobCleanupIntent::local(
                        here.namespace.clone(),
                        here.blob_id.clone(),
                    );
                    here.go(RecordStep::RecordLocal { intent })
                },
            },
            (RecordStep::RecordLocal { .. }, RecordReply::Recorded(recorded)) => match recorded {
                Err(error) => here.go(RecordStep::Failed { error }),
                Ok(_) => here.go(RecordStep::Done),
            },
            (step, _) => here.go(step),
        }
    }
}

/// An obligation is recorded for a copy exactly where no live row was found to need it,
/// and the copies of an exact locator are judged apart from the local store's copy.
pub proof fn law_only_unneeded_copies_are_recorded(
    before: RecordObsoleteCopies,
    reply: RecordReply,
    after: RecordObsoleteCopies,
)
    requires
        before.follows(reply, after),
        before.step != after.step,
    ensures
        after.step matches RecordStep::RecordExact { intent } ==> (
        before.step matches RecordStep::CheckExact { hash } && reply == RecordReply::Referenced(
            Ok(false),
        ) && intent == before.exact_intent(hash)),
        after.step matches RecordStep::RecordLocal { intent } ==> before.step == RecordStep::CheckLocal
            && reply == RecordReply::Referenced(Ok(false)) && intent == before.local_intent(),
        before.step == RecordStep::CheckLocal && reply == RecordReply::Referenced(Ok(true))
            ==> after.step is Done,
{
}

/// The query for the locators that a row is bound to. Its parameters are the table and the
/// row's id.
pub fn locator_bindings_sql() -> (sql: String)
    ensures
        sql@
            == "SELECT locator.locator_hash FROM row_blob_locators AS binding JOIN blob_locators AS locator ON locator.remote_object_id = binding.remote_object_id WHERE binding.table_name = ?1 AND binding.row_id = ?2"@,
{
    "SELECT locator.locator_hash FROM row_blob_locators AS binding JOIN blob_locators AS locator ON locator.remote_object_id = binding.remote_object_id WHERE binding.table_name = ?1 AND binding.row_id = ?2".to_owned()
}

/// The statement that records an obligation, and leaves one that is recorded already. Its
/// parameters are the namespace, the blob's id and the copy's identity.
pub fn record_intent_sql() -> (sql: String)
    ensures
        sql@
            == "INSERT OR IGNORE INTO local_cleanup_intents (namespace, blob_id, copy_identity) VALUES (?1, ?2, ?3)"@,
{
    "INSERT OR IGNORE INTO local_cleanup_intents (namespace, blob_id, copy_identity) VALUES (?1, ?2, ?3)".to_owned()
}

/// The query for the recorded obligations, each with whether a write leases its copy. Only
/// the local store's copy can be leased. Obligations come in the order of their blobs, and
/// of one blob the local store's copy comes last.
pub fn pending_intents_sql() -> (sql: String)
    ensures
        sql@
            == "SELECT intent.namespace, intent.blob_id, intent.copy_identity, EXISTS (SELECT 1 FROM store_write_blob_leases lease WHERE lease.namespace = intent.namespace AND lease.blob_id = intent.blob_id AND intent.copy_identity = 'local') FROM local_cleanup_intents intent ORDER BY namespace, blob_id, CASE WHEN copy_identity = 'local' THEN 1 ELSE 0 END, copy_identity"@,
{
    "SELECT intent.namespace, intent.blob_id, intent.copy_identity, EXISTS (SELECT 1 FROM store_write_blob_leases lease WHERE lease.namespace = intent.namespace AND lease.blob_id = intent.blob_id AND intent.copy_identity = 'local') FROM local_cleanup_intents intent ORDER BY namespace, blob_id, CASE WHEN copy_identity = 'local' THEN 1 ELSE 0 END, copy_identity".to_owned()
}

/// The statement that removes an obligation. Its parameters are those of recording it.
pub fn remove_intent_sql() -> (sql: String)
    ensures
        sql@
            == "DELETE FROM local_cleanup_intents WHERE namespace = ?1 AND blob_id = ?2 AND copy_identity = ?3"@,
{
    "DELETE FROM local_cleanup_intents WHERE namespace = ?1 AND blob_id = ?2 AND copy_identity = ?3".to_owned()
}

/// The operation that a cleanup pass performs next.
#[derive(Debug)]
pub enum CleanupStep {
    /// Drop the local store's copy.
    DropLocal { intent: LocalBlobCleanupIntent },
    /// Drop the cached copies of this exact locator.
    DropExact { intent: LocalBlobCleanupIntent, hash: ObjectHash },
    /// Remove the obligation.
    RemoveIntent { intent: LocalBlobCleanupIntent },
    /// The pass is through.
    Done,
    /// The pass failed; the obligation at hand stays.
    Failed { error: DbError },
}

/// What the operation answered.
#[derive(Debug)]
pub enum CleanupReply {
    Dropped(Result<(), String>),
    Removed(Result<(), DbError>),
}

/// A pass over the recorded obligations.
pub struct CleanupDrain {
    /// The obligations that were not looked at yet, each with whether a write that is under
    /// way still leases its copy.
    pub pending: VecDeque<(LocalBlobCleanupIntent, bool)>,
    /// Whether a leased obligation was left.
    pub blocked: bool,
    /// What to perform next.
    pub step: CleanupStep,
}

/// What the next obligation asks for: a leased one is left and remembered.
pub open spec fn next_cleanup(
    pending: Seq<(LocalBlobCleanupIntent, bool)>,
    blocked: bool,
    rest: Seq<(LocalBlobCleanupIntent, bool)>,
    now_blocked: bool,
    step: CleanupStep,
) -> bool
    decreases pending.len(),
{
    if pending.len() == 0 {
        rest == pending && now_blocked == blocked && step is Done
    } else if pending[0].1 {
        next_cleanup(pending.skip(1), true, rest, now_blocked, step)
    } else {
        let intent = pending[0].0;
        &&& rest == pending.skip(1)
        &&& now_blocked == blocked
        &&& match intent.identity {
            LocalBlobCleanupIdentity::Local => step == (CleanupStep::DropLocal { intent }),
            LocalBlobCleanupIdentity::Exact(hash) => step == (CleanupStep::DropExact {
                intent,
                hash,
            }),
            LocalBlobCleanupIdentity::Row { .. } => step matches CleanupStep::Failed { error }
                && error@ == DbErrorView::Message(
                "row-bound local cleanup identity is not durable"@,
            ),
        }
    }
}

impl CleanupDrain {
    /// The same pass at another step.
    pub open spec fn at(self, step: CleanupStep) -> CleanupDrain {
        CleanupDrain { step, ..self }
    }

    /// What a dropped copy leads to.
    pub open spec fn dropped(
        self,
        intent: LocalBlobCleanupIntent,
        done: Result<(), String>,
        next: CleanupDrain,
    ) -> bool {
        match done {
            Ok(_) => next == self.at(CleanupStep::RemoveIntent { intent }),
            Err(detail) => next == self.at(next.step) && (
            next.step matches CleanupStep::Failed { error } && error@ == DbErrorView::Message(
                "remove local copies for "@ + intent.namespace@ + "/"@ + intent.blob_id@ + ": "@
                    + detail@,
            )),
        }
    }

    /// What follows on each reply. A reply that does not answer the step changes nothing.
    pub open spec fn follows(self, reply: CleanupReply, next: CleanupDrain) -> bool {
        match (self.step, reply) {
            (CleanupStep::DropLocal { intent }, CleanupReply::Dropped(done)) => self.dropped(
                intent,
                done,
                next,
            ),
            (CleanupStep::DropExact { intent, .. }, CleanupReply::Dropped(done)) => self.dropped(
                intent,
                done,
                next,
            ),
            (CleanupStep::RemoveIntent { .. }, CleanupReply::Removed(removed)) => match removed {
                Err(error) => next == self.at(CleanupStep::Failed { error }),
                Ok(_) => next_cleanup(
                    self.pending@,
                    self.blocked,
                    next.pending@,
                    next.blocked,
                    next.step,
                ),
            },
            _ => next == self,
        }
    }

    fn advance(self) -> (next: CleanupDrain)
        ensures
            next_cleanup(self.pending@, self.blocked, next.pending@, next.blocked, next.step),
    {
        let CleanupDrain { pending, blocked, step: _ } = self;
        let mut pending: VecDeque<(LocalBlobCleanupIntent, bool)> = pending;
        let mut blocked: bool = blocked;
        let ghost all = pending@;
        let ghost first = blocked;
        let ghost mut taken: int = 0;
        assert(all.skip(0) =~= all);
        loop
            invariant
                0 <= taken <= all.len(),
                all == self.pending@,
                first == self.blocked,
                pending@ == all.skip(taken),
                forall|rest: Seq<(LocalBlobCleanupIntent, bool)>, b: bool, step: CleanupStep|
                    next_cleanup(all.skip(taken), blocked, rest, b, step) ==> #[trigger]
                        next_cleanup(all, first, rest, b, step),
            decreases all.len() - taken,
        {
            match pending.pop_front() {
                None => {
                    assert(pending@ =~= all.skip(taken));
                    let done = CleanupDrain { pending, blocked, step: CleanupStep::Done };
                    assert(next_cleanup(
                        all.skip(taken),
                        blocked,
                        done.pending@,
                        blocked,
                        done.step,
                    ));
                    return done;
                },
                Some((intent, leased)) => {
                    assert((intent, leased) == all.skip(taken)[0]);
                    assert(pending@ =~= all.skip(taken).skip(1));
                    assert(all.skip(taken).skip(1) =~= all.skip(taken + 1));
                    if leased {
                        blocked = true;
                        proof {
                            taken = taken + 1;
                        }
                    } else {
                        let persisted = intent.persisted_identity();
                        let exact: Option<ObjectHash> = match &intent.identity {
                            LocalBlobCleanupIdentity::Exact(hash) => Some(*hash),
                            _ => None,
                        };
                        let step = match persisted {
                            Err(error) => CleanupStep::Failed { error },
                            Ok(_) => match exact {
                                Some(hash) => CleanupStep::DropExact { intent, hash },
                                None => CleanupStep::DropLocal { intent },
                            },
                        };
                        assert(next_cleanup(all.skip(taken), blocked, pending@, blocked, step));
                        return CleanupDrain { pending, blocked, step };
                    }
                },
            }
        }
    }

    /// Starts a pass over the recorded obligations.
    pub fn start(pending: VecDeque<(LocalBlobCleanupIntent, bool)>) -> (drain: CleanupDrain)
        ensures
            next_cleanup(pending@, false, drain.pending@, drain.blocked, drain.step),
            is_cleanup_start(drain, pending@),
    {
        let ghost all = pending@;
        let drain = CleanupDrain { pending, blocked: false, step: CleanupStep::Done }.advance();
        proof {
            lemma_next_cleanup_skips_none(all, false, drain);
        }
        drain
    }

    fn go(self, step: CleanupStep) -> (next: CleanupDrain)
        ensures
            next == self.at(step),
    {
        CleanupDrain { step, ..self }
    }

    fn after_drop(self, intent: LocalBlobCleanupIntent, done: Result<(), String>) -> (next:
        CleanupDrain)
        ensures
            self.dropped(intent, done, next),
    {
        match done {
            Ok(_) => self.go(CleanupStep::RemoveIntent { intent }),
            Err(detail) => self.go(
                CleanupStep::Failed {
                    error: DbError::Message(
                        "remove local copies for ".to_owned().concat(
                            intent.namespace.as_str(),
                        ).concat("/").concat(intent.blob_id.as_str()).concat(": ").concat(
                            detail.as_str(),
                        ),
                    ),
                },
            ),
        }
    }

    /// Takes the reply to the present step and decides the next one.
    pub fn next(self, reply: CleanupReply) -> (next: CleanupDrain)
        ensures
            self.follows(reply, next),
    {
        let CleanupDrain { pending, blocked, step } = self;
        let here = CleanupDrain { pending, blocked, step: CleanupStep::Done };
        match (step, reply) {
            (CleanupStep::DropLocal { intent }, CleanupReply::Dropped(done)) => here.after_drop(
                intent,
                done,
            ),
            (CleanupStep::DropExact { intent, .. }, CleanupReply::Dropped(done)) => here.after_drop(
                intent,
                done,
            ),
            (CleanupStep::RemoveIntent { .. }, CleanupReply::Removed(removed)) => match removed {
                Err(error) => here.go(CleanupStep::Failed { error }),
                Ok(_) => here.advance(),
            },
            (step, _) => here.go(step),
        }
    }
}

/// An obligation is removed only after its copy was dropped, and it is the one whose copy
/// was dropped; a failed drop keeps it.
pub proof fn law_obligation_stays_until_its_copy_is_gone(
    before: CleanupDrain,
    reply: CleanupReply,
    after: CleanupDrain,
)
    requires
        before.follows(reply, after),
        after.step is RemoveIntent,
        !(before.step is RemoveIntent),
    ensures
        reply matches CleanupReply::Dropped(Ok(_)),
        before.step matches CleanupStep::DropLocal { intent } ==> after.step == (
        CleanupStep::RemoveIntent { intent }),
        before.step matches CleanupStep::DropExact { intent, .. } ==> after.step == (
        CleanupStep::RemoveIntent { intent }),
        before.step is DropLocal || before.step is DropExact,
{
}

/// A leased copy is never dropped: what a pass drops next is never leased, and a pass that
/// ends with nothing blocked has left nothing behind.
pub proof fn law_leased_copies_are_left(
    pending: Seq<(LocalBlobCleanupIntent, bool)>,
    blocked: bool,
    rest: Seq<(LocalBlobCleanupIntent, bool)>,
    now_blocked: bool,
    step: CleanupStep,
)
    requires
        next_cleanup(pending, blocked, rest, now_blocked, step),
    ensures
        step matches CleanupStep::DropLocal { intent } ==> pending.contains((intent, false)),
        step matches CleanupStep::DropExact { intent, .. } ==> pending.contains((intent, false)),
        !now_blocked ==> !blocked && (step is Done ==> pending.len() == 0),
    decreases pending.len(),
{
    if pending.len() > 0 {
        if pending[0].1 {
            law_leased_copies_are_left(pending.skip(1), true, rest, now_blocked, step);
            match step {
                CleanupStep::DropLocal { intent } => {
                    let k = choose|k: int|
                        0 <= k < pending.skip(1).len() && #[trigger] pending.skip(1)[k] == (
                            intent,
                            false,
                        );
                    assert(pending[k + 1] == (intent, false));
                },
                CleanupStep::DropExact { intent, .. } => {
                    let k = choose|k: int|
                        0 <= k < pending.skip(1).len() && #[trigger] pending.skip(1)[k] == (
                            intent,
                            false,
                        );
                    assert(pending[k + 1] == (intent, false));
                },
                _ => {},
            }
        } else {
            assert(pending[0] == (pending[0].0, false));
        }
    }
}

/// How many operations a pass has before it at most.
pub open spec fn cleanup_left(drain: CleanupDrain) -> nat {
    3 * drain.pending@.len() + match drain.step {
        CleanupStep::DropLocal { .. } => 2nat,
        CleanupStep::DropExact { .. } => 2,
        CleanupStep::RemoveIntent { .. } => 1,
        CleanupStep::Done => 0,
        CleanupStep::Failed { .. } => 0,
    }
}

proof fn lemma_next_cleanup_is_shorter(
    pending: Seq<(LocalBlobCleanupIntent, bool)>,
    blocked: bool,
    rest: Seq<(LocalBlobCleanupIntent, bool)>,
    now_blocked: bool,
    step: CleanupStep,
)
    requires
        next_cleanup(pending, blocked, rest, now_blocked, step),
    ensures
        rest.len() <= pending.len(),
        step is DropLocal || step is DropExact ==> rest.len() < pending.len(),
        !(step is RemoveIntent),
    decreases pending.len(),
{
    if pending.len() > 0 && pending[0].1 {
        lemma_next_cleanup_is_shorter(pending.skip(1), true, rest, now_blocked, step);
    }
}

/// Every pass ends: each reply that answers the step brings it nearer to its end, and one
/// that does not changes nothing.
pub proof fn law_cleanup_pass_ends(before: CleanupDrain, reply: CleanupReply, after: CleanupDrain)
    requires
        before.follows(reply, after),
    ensures
        after == before || cleanup_left(after) < cleanup_left(before),
{
    if before.step is RemoveIntent && (reply matches CleanupReply::Removed(Ok(_))) {
        lemma_next_cleanup_is_shorter(
            before.pending@,
            before.blocked,
            after.pending@,
            after.blocked,
            after.step,
        );
    }
}

} // verus!
