//! What making a root remote, and publishing it, come to as a whole.

use vstd::prelude::*;

use crate::blob::transition::{
    all_created, cancellation, finalized, gated_root, is_make_remote_run, make_remote_leads, user_rows, CancelAction,
    Finalization, MakeRemote, MakeRemoteErrorView, MakeRemoteReply, MakeRemoteStep,
};
use crate::blob::Provenance;
use crate::database::DbError;
use crate::outbox::{
    MakeRemoteIntentState, OutboxEntry, OutboxOperation, OutboxUploadState, RowBlobAuthority, RowBlobRef,
};
use crate::session::{gate_of, SyncedTable};
use crate::store_dir::{first_fault, local_path_text, token_fault};

verus! {

/// What it means that an operation succeeded, for the row it is about.
pub open spec fn is_good(at: MakeRemote, reply: MakeRemoteReply) -> bool {
    match (at.step, reply) {
        (MakeRemoteStep::ReadLocality, MakeRemoteReply::Locality(Ok(remote))) => remote == Some(false),
        (MakeRemoteStep::RecheckLocality, MakeRemoteReply::Locality(Ok(remote))) => remote == Some(
            false,
        ),
        (MakeRemoteStep::MeasureSource { .. }, MakeRemoteReply::Facts(Ok((size, hash)))) => {
            at.sources@.len() < at.rows@.len() && size
                == at.rows@[at.sources@.len() as int].plaintext_size && hash
                == at.rows@[at.sources@.len() as int].plaintext_hash
        },
        (MakeRemoteStep::RecheckRows, MakeRemoteReply::Rows(Ok(rows))) => rows@.len()
            == at.rows@.len() && forall|i: int|
            0 <= i < rows@.len() ==> (#[trigger] rows@[i])@ == at.rows@[i]@,
        (MakeRemoteStep::Enqueue { .. }, MakeRemoteReply::Db(done)) => done is Ok,
        _ => false,
    }
}

/// Whether this operation succeeded in the first `n` operations of a run, when the sources
/// of `k` of these rows were verified.
#[verifier::opaque]
pub open spec fn happened(
    states: Seq<MakeRemote>,
    replies: Seq<MakeRemoteReply>,
    n: int,
    rows: Seq<RowBlobRef>,
    k: int,
    step: MakeRemoteStep,
) -> bool {
    exists|i: int|
        {
            &&& 0 <= i < n
            &&& (#[trigger] states[i]).step == step
            &&& states[i].rows@ == rows
            &&& states[i].sources@.len() == k
            &&& is_good(states[i], replies[i])
        }
}

/// Whether the user's file of row `k` was found at this path in the first `n` operations of
/// a run.
#[verifier::opaque]
pub open spec fn is_registered_at(
    states: Seq<MakeRemote>,
    replies: Seq<MakeRemoteReply>,
    n: int,
    rows: Seq<RowBlobRef>,
    k: int,
    path: String,
) -> bool {
    exists|i: int|
        {
            &&& 0 <= i < n
            &&& (#[trigger] states[i]).step is ReadExternal
            &&& states[i].rows@ == rows
            &&& states[i].sources@.len() == k
            &&& replies[i] matches MakeRemoteReply::External(Ok(Some(file))) && file.path == path
        }
}

/// Where the plaintext of row `k` is read from: the user's registered file, or the blob's
/// place in the local store.
pub open spec fn is_source(
    states: Seq<MakeRemote>,
    replies: Seq<MakeRemoteReply>,
    n: int,
    rows: Seq<RowBlobRef>,
    k: int,
    path: String,
) -> bool {
    match rows[k].blob.provenance {
        Provenance::UserProvided => is_registered_at(states, replies, n, rows, k, path),
        Provenance::HostProvided => path@ == local_path_text(
            states[0].store_dir@,
            rows[k].blob.namespace@,
            rows[k].blob.id@,
        ),
    }
}

/// Row `k` is verified: it is local and without an object, and its source was measured to
/// have the row's own size and hash.
pub open spec fn is_verified(
    states: Seq<MakeRemote>,
    replies: Seq<MakeRemoteReply>,
    n: int,
    rows: Seq<RowBlobRef>,
    k: int,
    path: String,
) -> bool {
    &&& rows[k].authority == RowBlobAuthority::Local
    &&& rows[k].stored is None
    &&& is_source(states, replies, n, rows, k, path)
    &&& happened(states, replies, n, rows, k, MakeRemoteStep::MeasureSource { path })
}

/// Everything of a transition that no reply changes.
pub open spec fn same_transition(a: MakeRemote, b: MakeRemote) -> bool {
    &&& b.store_dir == a.store_dir
    &&& b.root_table == a.root_table
    &&& b.root_id == a.root_id
    &&& b.gate_column == a.gate_column
    &&& b.pin == a.pin
}

spec fn has_behind_it(states: Seq<MakeRemote>, replies: Seq<MakeRemoteReply>, n: int) -> bool {
    let now = states[n];
    let count = now.rows@.len() as int;
    let k = now.sources@.len() as int;
    &&& same_transition(states[0], now)
    &&& now.sources@.len() <= now.rows@.len()
    &&& (forall|i: int|
        #![trigger now.sources@[i]]
        0 <= i < now.sources@.len() ==> is_verified(
            states,
            replies,
            n,
            now.rows@,
            i,
            now.sources@[i],
        ))
    &&& match now.step {
        MakeRemoteStep::ReadLocality => now.rows@.len() == 0,
        MakeRemoteStep::ReadRows => now.rows@.len() == 0,
        MakeRemoteStep::ReadExternal => k < count && now.rows@[k].authority == RowBlobAuthority::Local
            && now.rows@[k].stored is None && now.rows@[k].blob.provenance is UserProvided,
        MakeRemoteStep::MeasureSource { path } => k < count && now.rows@[k].authority
            == RowBlobAuthority::Local && now.rows@[k].stored is None && is_source(
            states,
            replies,
            n,
            now.rows@,
            k,
            path,
        ),
        MakeRemoteStep::RecheckLocality => k == count && count > 0,
        MakeRemoteStep::RecheckRows => k == count && count > 0 && happened(
            states,
            replies,
            n,
            now.rows@,
            count,
            MakeRemoteStep::RecheckLocality,
        ),
        MakeRemoteStep::ReadQueue => is_checked(states, replies, n),
        MakeRemoteStep::Enqueue { .. } => is_checked(states, replies, n),
        MakeRemoteStep::Done => is_checked(states, replies, n) && is_queued(states, replies, n),
        MakeRemoteStep::Failed { .. } => true,
    }
}

/// Every row is verified, and in the transaction the root was still local and its rows were
/// still the same.
pub open spec fn is_checked(
    states: Seq<MakeRemote>,
    replies: Seq<MakeRemoteReply>,
    n: int,
) -> bool {
    let now = states[n];
    let count = now.rows@.len() as int;
    &&& now.sources@.len() == count && count > 0
    &&& happened(states, replies, n, now.rows@, count, MakeRemoteStep::RecheckLocality)
    &&& happened(states, replies, n, now.rows@, count, MakeRemoteStep::RecheckRows)
}

/// The uploads were queued.
#[verifier::opaque]
pub open spec fn is_queued(states: Seq<MakeRemote>, replies: Seq<MakeRemoteReply>, n: int) -> bool {
    exists|i: int|
        {
            &&& 0 <= i < n
            &&& (#[trigger] states[i]).step is Enqueue
            &&& states[i].rows@ == states[n].rows@
            &&& states[i].sources@ == states[n].sources@
            &&& states[i].pin == states[n].pin
            &&& replies[i] matches MakeRemoteReply::Db(Ok(_))
        }
}

proof fn lemma_happened_stays(states: Seq<MakeRemote>, replies: Seq<MakeRemoteReply>, n: int)
    requires
        0 <= n,
    ensures
        forall|rows: Seq<RowBlobRef>, k: int, step: MakeRemoteStep|
            happened(states, replies, n, rows, k, step) ==> #[trigger] happened(
                states,
                replies,
                n + 1,
                rows,
                k,
                step,
            ),
        is_good(states[n], replies[n]) ==> happened(
            states,
            replies,
            n + 1,
            states[n].rows@,
            states[n].sources@.len() as int,
            states[n].step,
        ),
        forall|rows: Seq<RowBlobRef>, k: int, path: String|
            is_registered_at(states, replies, n, rows, k, path) ==> #[trigger] is_registered_at(
                states,
                replies,
                n + 1,
                rows,
                k,
                path,
            ),
        states[n].step is ReadExternal ==> (replies[n] matches MakeRemoteReply::External(
            Ok(Some(file)),
        ) ==> is_registered_at(
            states,
            replies,
            n + 1,
            states[n].rows@,
            states[n].sources@.len() as int,
            file.path,
        )),
        states[n + 1].rows == states[n].rows && states[n + 1].sources == states[n].sources
            && states[n + 1].pin == states[n].pin ==> (is_queued(states, replies, n) || (
        states[n].step is Enqueue && (replies[n] matches MakeRemoteReply::Db(Ok(_))))
            ==> is_queued(states, replies, n + 1)),
{
    reveal(happened);
    reveal(is_registered_at);
    reveal(is_queued);
    assert forall|rows: Seq<RowBlobRef>, k: int, step: MakeRemoteStep|
        happened(states, replies, n, rows, k, step) implies #[trigger] happened(
        states,
        replies,
        n + 1,
        rows,
        k,
        step,
    ) by {
        let i = choose|i: int|
            {
                &&& 0 <= i < n
                &&& (#[trigger] states[i]).step == step
                &&& states[i].rows@ == rows
                &&& states[i].sources@.len() == k
                &&& is_good(states[i], replies[i])
            };
        assert(states[i].step == step);
    }
    assert forall|rows: Seq<RowBlobRef>, k: int, path: String|
        is_registered_at(states, replies, n, rows, k, path) implies #[trigger] is_registered_at(
        states,
        replies,
        n + 1,
        rows,
        k,
        path,
    ) by {
        let i = choose|i: int|
            {
                &&& 0 <= i < n
                &&& (#[trigger] states[i]).step is ReadExternal
                &&& states[i].rows@ == rows
                &&& states[i].sources@.len() == k
                &&& replies[i] matches MakeRemoteReply::External(Ok(Some(file))) && file.path == path
            };
        assert(states[i].step is ReadExternal);
    }
    assert(states[n].step == states[n].step);
}

#[verifier::rlimit(40)]
proof fn lemma_behind_step(states: Seq<MakeRemote>, replies: Seq<MakeRemoteReply>, n: int)
    requires
        0 <= n,
        states[n].follows(replies[n], states[n + 1]),
        has_behind_it(states, replies, n),
    ensures
        has_behind_it(states, replies, n + 1),
{
    let (before, reply, after) = (states[n], replies[n], states[n + 1]);
    lemma_happened_stays(states, replies, n);
    let k = before.sources@.len() as int;
    match (before.step, reply) {
        (MakeRemoteStep::MeasureSource { path }, MakeRemoteReply::Facts(Ok(_))) => {
            if after.sources@.len() > before.sources@.len() {
                assert(is_verified(states, replies, n + 1, before.rows@, k, path));
                assert forall|i: int|
                    #![trigger after.sources@[i]]
                    0 <= i < after.sources@.len() implies is_verified(
                    states,
                    replies,
                    n + 1,
                    after.rows@,
                    i,
                    after.sources@[i],
                ) by {
                    if i < k {
                        assert(after.sources@[i] == before.sources@[i]);
                    }
                }
            }
        },
        _ => {},
    }
    if after.sources == before.sources && after.rows == before.rows {
        assert forall|i: int|
            #![trigger after.sources@[i]]
            0 <= i < after.sources@.len() implies is_verified(
            states,
            replies,
            n + 1,
            after.rows@,
            i,
            after.sources@[i],
        ) by {
            assert(is_verified(states, replies, n, before.rows@, i, before.sources@[i]));
        }
    }
}

proof fn lemma_behind_run(states: Seq<MakeRemote>, replies: Seq<MakeRemoteReply>, n: int)
    requires
        is_make_remote_run(states, replies),
        0 <= n < states.len(),
    ensures
        has_behind_it(states, replies, n),
    decreases n,
{
    if n > 0 {
        lemma_behind_run(states, replies, n - 1);
        assert(make_remote_leads(states[n - 1], replies[n - 1], states[n - 1 + 1]));
        reveal(make_remote_leads);
        lemma_behind_step(states, replies, n - 1);
    }
}

/// Whatever the operations reply: uploads are queued only when every row below the root is
/// verified, each with its own source: the user's registered file or the blob's place in the
/// local store, measured to have the row's own size and hash; and when, in the transaction,
/// the root was still local and its rows still the same.
pub proof fn law_queueing_comes_after_every_row(
    states: Seq<MakeRemote>,
    replies: Seq<MakeRemoteReply>,
    n: int,
    k: int,
)
    requires
        is_make_remote_run(states, replies),
        0 <= n < states.len(),
        states[n].step is Enqueue || states[n].step is Done,
        0 <= k < states[n].rows@.len(),
    ensures
        same_transition(states[0], states[n]),
        is_checked(states, replies, n),
        is_verified(states, replies, n, states[n].rows@, k, states[n].sources@[k]),
        states[n].step is Done ==> is_queued(states, replies, n),
{
    lemma_behind_run(states, replies, n);
    assert(states[n].sources@[k] == states[n].sources@[k]);
}

/// Whether the transition is refused with this error.
pub open spec fn is_refused(after: MakeRemote, error: MakeRemoteErrorView) -> bool {
    after.step matches MakeRemoteStep::Failed { error: e } && e@ == error
}

/// A transition is refused exactly where something is in its way, and says what: the root is
/// not local, a row is not, there is no row, a row has no source or another one than it
/// declares, the rows changed, or an operation failed. Whatever else is answered, it goes on.
pub proof fn law_make_remote_goes_on_unless_something_is_in_its_way(
    before: MakeRemote,
    reply: MakeRemoteReply,
    after: MakeRemote,
)
    requires
        before.follows(reply, after),
        before.in_order(),
        before.step is ReadRows ==> before.sources@.len() == 0,
    ensures
        match (before.step, reply) {
            (MakeRemoteStep::ReadLocality, MakeRemoteReply::Locality(locality)) => match locality {
                Ok(Some(false)) => after.step is ReadRows,
                Ok(Some(true)) => is_refused(
                    after,
                    MakeRemoteErrorView::AlreadyRemote(before.root_table@, before.root_id@),
                ),
                Ok(None) => is_refused(
                    after,
                    MakeRemoteErrorView::UnresolvedLocality(before.root_table@, before.root_id@),
                ),
                Err(error) => is_refused(after, MakeRemoteErrorView::Db(error@)),
            },
            (MakeRemoteStep::RecheckLocality, MakeRemoteReply::Locality(locality)) => match locality {
                Ok(Some(false)) => after.step is RecheckRows,
                Ok(Some(true)) => is_refused(
                    after,
                    MakeRemoteErrorView::AlreadyRemote(before.root_table@, before.root_id@),
                ),
                Ok(None) => is_refused(
                    after,
                    MakeRemoteErrorView::UnresolvedLocality(before.root_table@, before.root_id@),
                ),
                Err(error) => is_refused(after, MakeRemoteErrorView::Db(error@)),
            },
            (MakeRemoteStep::ReadRows, MakeRemoteReply::Rows(rows)) => match rows {
                Err(error) => is_refused(after, MakeRemoteErrorView::Db(error@)),
                Ok(rows) => {
                    &&& rows@.len() == 0 ==> is_refused(
                        after,
                        MakeRemoteErrorView::NothingToMakeRemote(before.root_table@, before.root_id@),
                    )
                    &&& rows@.len() > 0 ==> after.rows == rows && after.sources@.len() == 0
                        && turns_to(after, rows@[0])
                },
            },
            (MakeRemoteStep::ReadExternal, MakeRemoteReply::External(found)) => match found {
                Err(error) => is_refused(after, MakeRemoteErrorView::Db(error@)),
                Ok(None) => is_refused(
                    after,
                    MakeRemoteErrorView::NotExternal(
                        before.rows@[before.sources@.len() as int].blob.id@,
                    ),
                ),
                Ok(Some(file)) => after.step == (MakeRemoteStep::MeasureSource { path: file.path }),
            },
            (MakeRemoteStep::MeasureSource { path }, MakeRemoteReply::Facts(facts)) => if is_good(
                before,
                reply,
            ) {
                &&& after.sources@ == before.sources@.push(path)
                &&& if after.sources@.len() < after.rows@.len() {
                    turns_to(after, after.rows@[after.sources@.len() as int])
                } else {
                    after.step is RecheckLocality
                }
            } else {
                after.step matches MakeRemoteStep::Failed { error } && (
                error@ matches MakeRemoteErrorView::Source { blob_id, path: named, .. } && blob_id
                    == before.rows@[before.sources@.len() as int].blob.id@ && named == path@)
            },
            (MakeRemoteStep::RecheckRows, MakeRemoteReply::Rows(rows)) => {
                &&& after.step is ReadQueue == is_good(before, reply)
                &&& after.step is Failed == !is_good(before, reply)
                &&& rows matches Err(error) ==> is_refused(after, MakeRemoteErrorView::Db(error@))
            },
            (MakeRemoteStep::ReadQueue, MakeRemoteReply::Queue(queue)) => match queue {
                Ok(queue) => after.step is Enqueue,
                Err(error) => is_refused(after, MakeRemoteErrorView::Db(error@)),
            },
            (MakeRemoteStep::Enqueue { .. }, MakeRemoteReply::Db(done)) => match done {
                Ok(_) => after.step is Done,
                Err(error) => is_refused(after, MakeRemoteErrorView::Db(error@)),
            },
            _ => after == before,
        },
{
    match (before.step, reply) {
        (MakeRemoteStep::ReadRows, MakeRemoteReply::Rows(Ok(rows))) => {
            if rows@.len() > 0 {
                lemma_turns_to(after, rows@[0]);
            }
        },
        (MakeRemoteStep::MeasureSource { path }, MakeRemoteReply::Facts(_)) => {
            if is_good(before, reply) && after.sources@.len() < after.rows@.len() {
                lemma_turns_to(after, after.rows@[after.sources@.len() as int]);
            }
        },
        _ => {},
    }
}

/// What comes for the next row: a row that is remote already is refused; the user's file of
/// one of theirs is looked up; and the file of another is measured in the local store.
pub open spec fn turns_to(at: MakeRemote, row: RowBlobRef) -> bool {
    if row.authority != RowBlobAuthority::Local || row.stored is Some {
        is_refused(at, MakeRemoteErrorView::AlreadyRemote(at.root_table@, at.root_id@))
    } else if row.blob.provenance is UserProvided {
        at.step is ReadExternal
    } else if token_fault(row.blob.namespace@) is None && token_fault(row.blob.id@) is None {
        at.step matches MakeRemoteStep::MeasureSource { path } && path@ == local_path_text(
            at.store_dir@,
            row.blob.namespace@,
            row.blob.id@,
        )
    } else {
        at.step is Failed
    }
}

proof fn lemma_turns_to(at: MakeRemote, row: RowBlobRef)
    requires
        at.sources@.len() < at.rows@.len(),
        row == at.rows@[at.sources@.len() as int],
        at.turns_to_row(at.sources@.len() as int, at.step),
    ensures
        turns_to(at, row),
{
    let parts = seq![row.blob.namespace@, row.blob.id@];
    assert(parts.drop_last().drop_last() =~= Seq::<Seq<char>>::empty());
    assert(parts.drop_last() =~= seq![row.blob.namespace@]);
    assert(first_fault(parts.drop_last().drop_last()) is None);
    assert(first_fault(parts.drop_last()) == token_fault(row.blob.namespace@));
}

/// The first table with a name, and whether it has a gate column: the column belongs to the
/// root, whatever later tables of the same name say.
pub proof fn law_first_table_decides_its_gate(tables: Seq<SyncedTable>, name: Seq<char>, t: int)
    requires
        0 <= t <= tables.len(),
        forall|u: int| 0 <= u < t ==> (#[trigger] tables[u]).name@ != name,
        t < tables.len() ==> tables[t].name@ == name,
    ensures
        gate_of(tables, name) == (if t < tables.len() {
            match tables[t].gate_column {
                Some(column) => Some(column@),
                None => None,
            }
        } else {
            None
        }),
    decreases tables.len(),
{
    if t > 0 {
        assert(tables[0].name@ != name);
        let rest = tables.skip(1);
        assert forall|u: int| 0 <= u < t - 1 implies (#[trigger] rest[u]).name@ != name by {
            assert(tables[u + 1].name@ != name);
        }
        law_first_table_decides_its_gate(rest, name, t - 1);
    }
}

/// Only a table that has a gate and is not remote by construction can be moved.
pub proof fn law_only_gated_roots_move(tables: Seq<SyncedTable>, name: Seq<char>)
    ensures
        (exists|t: int| 0 <= t < tables.len() && (#[trigger] tables[t]).name@ == name && tables[t].remote_root)
            == (gated_root(tables, name) == Err::<Seq<char>, MakeRemoteErrorView>(
            MakeRemoteErrorView::RemoteRoot(name),
        )),
        gated_root(tables, name) matches Ok(column) ==> gate_of(tables, name) == Some(column),
        gated_root(tables, name) == Err::<Seq<char>, MakeRemoteErrorView>(
            MakeRemoteErrorView::NotGated(name),
        ) ==> gate_of(tables, name) is None,
{
}

/// Cancelling marks exactly an uploading transition. It leaves alone one that is cancelling
/// already, and one that is complete, which is where no intent is left and the root is
/// remote; and it refuses one that is being published and one that is not there.
pub proof fn law_only_an_uploading_transition_is_cancelled(
    state: Option<MakeRemoteIntentState>,
    locality: Option<bool>,
    root_table: Seq<char>,
    root_id: Seq<char>,
)
    ensures
        ({
            let decided = cancellation(state, locality, root_table, root_id);
            &&& (decided == Ok::<CancelAction, Seq<char>>(CancelAction::MarkCancelling)) == (state
                matches Some(at) && at is Uploading)
            &&& (decided == Ok::<CancelAction, Seq<char>>(CancelAction::Nothing)) == ((state
                matches Some(at) && at is Cancelling) || (state is None && locality == Some(true)))
            &&& decided is Err == ((state matches Some(at) && at is Publishing) || (state is None
                && locality != Some(true)))
        }),
{
}

/// The rows whose blob is a user's own file, in their order.
pub open spec fn users_own(rows: Seq<RowBlobRef>) -> Seq<RowBlobRef>
    decreases rows.len(),
{
    if rows.len() == 0 {
        seq![]
    } else if rows.last().blob.provenance is UserProvided {
        users_own(rows.drop_last()).push(rows.last())
    } else {
        users_own(rows.drop_last())
    }
}

proof fn lemma_users_own(rows: Seq<RowBlobRef>)
    ensures
        user_rows(rows) == users_own(rows),
    decreases rows.len(),
{
    reveal(Seq::filter);
    if rows.len() > 0 {
        lemma_users_own(rows.drop_last());
        assert(rows.last().blob.provenance is UserProvided == (rows.last().blob.provenance
            == Provenance::UserProvided));
    } else {
        assert(user_rows(rows) =~= users_own(rows));
    }
}

/// A created upload publishes its root exactly where the transition is uploading, the row
/// still belongs to the root, and every row below it has its upload, all of them created,
/// this one among them. Then it is its gate that is turned on, and the files that are
/// dropped are those of all of the user's rows and of no others. As long as an upload is
/// missing, or the root is being published, it waits; where the transition was cancelled, it
/// says so.
pub proof fn law_last_created_upload_publishes_the_root(
    entry: OutboxEntry,
    tables: Seq<SyncedTable>,
    root: Result<Option<(String, String)>, DbError>,
    intent: MakeRemoteIntentState,
    rows: Vec<RowBlobRef>,
    entries: Vec<OutboxEntry>,
    result: Result<Finalization, DbError>,
)
    requires
        finalized(entry, tables, root, Ok(Some(intent)), Ok(rows), Ok(entries), result),
        entry.operation matches OutboxOperation::Upload { root_table, root_id, state, .. }
            && state is Created && (root matches Ok(Some(found)) && found.0@ == root_table@
            && found.1@ == root_id@),
    ensures
        intent is Publishing ==> (result matches Ok(done) && done is Waiting),
        intent is Cancelling ==> (result matches Ok(done) && done is Cancelled),
        intent is Uploading ==> {
            let all_up = forall|i: int|
                0 <= i < entries@.len() ==> ((
                #[trigger] entries@[i]).operation matches OutboxOperation::Upload { state, .. }
                    && state is Created);
            let here = exists|i: int| 0 <= i < entries@.len() && (#[trigger] entries@[i])@ == entry@;
            let column = gate_of(tables, entry.operation->root_table@);
            &&& rows@.len() != entries@.len() ==> result is Err
            &&& rows@.len() == entries@.len() && !all_up ==> (result matches Ok(done) && done is Waiting)
            &&& rows@.len() == entries@.len() && all_up && !here ==> result is Err
            &&& rows@.len() == entries@.len() && all_up && here && column is None ==> result is Err
            &&& rows@.len() == entries@.len() && all_up && here && column is Some ==> (
            result matches Ok(Finalization::Publish { gate_column, external }) && gate_column@
                == column->0 && external@ == users_own(rows@))
        },
{
    lemma_users_own(rows@);
    let all_up = forall|i: int|
        0 <= i < entries@.len() ==> ((#[trigger] entries@[i]).operation matches OutboxOperation::Upload {
            state,
            ..
        } && state is Created);
    assert(all_up == all_created(entries@)) by {
        if all_created(entries@) {
            assert forall|i: int| 0 <= i < entries@.len() implies ((
            #[trigger] entries@[i]).operation matches OutboxOperation::Upload { state, .. }
                && state is Created) by {
                assert(entries@[i].operation matches OutboxOperation::Upload {
                    state: OutboxUploadState::Created { .. },
                    ..
                });
            }
        }
    }
}

/// An upload that is not created, or whose row left its root, is never finalized.
pub proof fn law_stray_upload_is_not_finalized(
    entry: OutboxEntry,
    tables: Seq<SyncedTable>,
    root: Result<Option<(String, String)>, DbError>,
    intent: Result<Option<MakeRemoteIntentState>, DbError>,
    rows: Result<Vec<RowBlobRef>, DbError>,
    entries: Result<Vec<OutboxEntry>, DbError>,
    result: Result<Finalization, DbError>,
)
    requires
        finalized(entry, tables, root, intent, rows, entries, result),
        !(entry.operation matches OutboxOperation::Upload { root_table, root_id, state, .. }
            && state is Created && (root matches Ok(Some(found)) && found.0@ == root_table@
            && found.1@ == root_id@)) || intent is Err || intent->Ok_0 is None,
    ensures
        result is Err,
{
}

} // verus!
