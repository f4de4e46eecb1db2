//! What recording obsolete copies, and a cleanup pass, come to as a whole.

use vstd::prelude::*;

use crate::blob::local_cleanup::{
    bound_locator, distinct_count, next_cleanup, CleanupDrain, CleanupReply, CleanupStep, LocalBlobCleanupIdentity,
    LocalBlobCleanupIntent, RecordObsoleteCopies, RecordReply, RecordStep,
};
use crate::database::DbErrorView;
use crate::digest::{hex_text, law_object_hash_text_round_trip, ObjectHash};
use crate::store_dir::texts;

verus! {

/// What the database answers while obsolete copies are recorded.
pub ghost struct CopyNeeds {
    /// The locators that the row is bound to, as texts.
    pub bindings: Seq<Seq<char>>,
    /// Whether a live row needs the cached copies of an exact locator.
    pub exact: Map<ObjectHash, bool>,
    /// Whether a live row needs the local store's copy.
    pub local: bool,
}

/// A reply that tells the truth where it does not report a failure.
pub open spec fn record_answers(needs: CopyNeeds, step: RecordStep, reply: RecordReply) -> bool {
    match (step, reply) {
        (RecordStep::ReadBindings { .. }, RecordReply::Bindings(Ok(hashes))) => texts(hashes@)
            == needs.bindings,
        (RecordStep::CheckExact { hash }, RecordReply::Referenced(Ok(needed))) => needed
            == needs.exact[hash],
        (RecordStep::CheckLocal, RecordReply::Referenced(Ok(needed))) => needed == needs.local,
        _ => true,
    }
}

/// The row is bound to this one locator, by however many bindings.
pub open spec fn is_bound_to(bindings: Seq<Seq<char>>, bound: Option<ObjectHash>) -> bool {
    match bound {
        None => bindings.len() == 0,
        Some(hash) => bindings.len() > 0 && forall|i: int|
            0 <= i < bindings.len() ==> #[trigger] bindings[i] == hex_text(hash@),
    }
}

/// Work that has just been started from a request.
pub open spec fn is_started_from(work: RecordObsoleteCopies, request: LocalBlobCleanupIntent) -> bool {
    &&& work.namespace@ == request.namespace@
    &&& work.blob_id@ == request.blob_id@
    &&& match request.identity {
        LocalBlobCleanupIdentity::Local => work.step is CheckLocal,
        LocalBlobCleanupIdentity::Row { table, row_id } => work.step matches RecordStep::ReadBindings {
            table: t,
            row_id: r,
        } && t@ == table@ && r@ == row_id@,
        LocalBlobCleanupIdentity::Exact(_) => work.step is Failed,
    }
}

/// An obligation: whose copies, and which.
pub ghost struct Obligation {
    pub namespace: Seq<char>,
    pub blob_id: Seq<char>,
    /// The exact locator whose cached copies are meant, or `None` for the local store's copy.
    pub exact: Option<ObjectHash>,
}

/// The obligation that a durable intent stands for.
pub open spec fn obligation_of(intent: LocalBlobCleanupIntent) -> Obligation {
    Obligation {
        namespace: intent.namespace@,
        blob_id: intent.blob_id@,
        exact: match intent.identity {
            LocalBlobCleanupIdentity::Exact(hash) => Some(hash),
            _ => None,
        },
    }
}

/// The obligation that this reply says is recorded.
pub open spec fn now_recorded(work: RecordObsoleteCopies, reply: RecordReply) -> Seq<Obligation> {
    match (work.step, reply) {
        (RecordStep::RecordExact { intent }, RecordReply::Recorded(Ok(_))) => seq![
            obligation_of(intent),
        ],
        (RecordStep::RecordLocal { intent }, RecordReply::Recorded(Ok(_))) => seq![
            obligation_of(intent),
        ],
        _ => seq![],
    }
}

/// The obligations that were recorded in the first `n` operations of a run.
pub open spec fn recorded_obligations(
    states: Seq<RecordObsoleteCopies>,
    replies: Seq<RecordReply>,
    n: int,
) -> Seq<Obligation>
    decreases n,
{
    if n <= 0 {
        seq![]
    } else {
        recorded_obligations(states, replies, n - 1) + now_recorded(states[n - 1], replies[n - 1])
    }
}

/// A run from a request, answered by this database.
pub open spec fn is_record_run(
    request: LocalBlobCleanupIntent,
    needs: CopyNeeds,
    states: Seq<RecordObsoleteCopies>,
    replies: Seq<RecordReply>,
) -> bool {
    &&& states.len() == replies.len() + 1
    &&& is_started_from(states[0], request)
    &&& forall|i: int|
        0 <= i < replies.len() ==> states[i].follows(#[trigger] replies[i], states[i + 1])
            && record_answers(needs, states[i].step, replies[i])
}

/// The obligation for the cached copies: owed where the row is bound to a locator that no
/// live row needs.
pub open spec fn owed_exact(
    request: LocalBlobCleanupIntent,
    needs: CopyNeeds,
    bound: Option<ObjectHash>,
) -> Seq<Obligation> {
    match (request.identity, bound) {
        (LocalBlobCleanupIdentity::Row { .. }, Some(hash)) => if needs.exact[hash] {
            seq![]
        } else {
            seq![
                Obligation {
                    namespace: request.namespace@,
                    blob_id: request.blob_id@,
                    exact: Some(hash),
                },
            ]
        },
        _ => seq![],
    }
}

/// The obligation for the local store's copy: owed where no live row needs it.
pub open spec fn owed_local(request: LocalBlobCleanupIntent, needs: CopyNeeds) -> Seq<Obligation> {
    if needs.local {
        seq![]
    } else {
        seq![
            Obligation {
                namespace: request.namespace@,
                blob_id: request.blob_id@,
                exact: None,
            },
        ]
    }
}

proof fn lemma_one_binding(bindings: Seq<Seq<char>>, hash: ObjectHash, table: Seq<char>, row: Seq<char>)
    requires
        is_bound_to(bindings, Some(hash)),
    ensures
        bound_locator(table, row, bindings) == Ok::<Option<ObjectHash>, Seq<char>>(Some(hash)),
{
    let text = hex_text(hash@);
    assert(bindings[0] == text);
    assert(bindings.to_set() =~= Set::<Seq<char>>::empty().insert(text)) by {
        assert forall|x: Seq<char>| bindings.to_set().contains(x) <==> x == text by {
            if bindings.contains(x) {
                let k = bindings.index_of(x);
                assert(bindings[k] == text);
            }
            if x == text {
                assert(bindings.contains(bindings[0]));
            }
        }
    }
    law_object_hash_text_round_trip(hash);
    let chosen = choose|h: ObjectHash| hex_text(h@) == bindings[0];
    assert(hex_text(chosen@) == text);
}

proof fn lemma_no_binding(bindings: Seq<Seq<char>>, table: Seq<char>, row: Seq<char>)
    requires
        bindings.len() == 0,
    ensures
        bound_locator(table, row, bindings) == Ok::<Option<ObjectHash>, Seq<char>>(None),
{
    assert(bindings.to_set() =~= Set::<Seq<char>>::empty());
}

proof fn lemma_two_bindings(bindings: Seq<Seq<char>>, i: int, j: int)
    requires
        0 <= i < bindings.len(),
        0 <= j < bindings.len(),
        bindings[i] != bindings[j],
    ensures
        distinct_count(bindings) >= 2,
{
    let all = bindings.to_set();
    let pair = Set::<Seq<char>>::empty().insert(bindings[i]).insert(bindings[j]);
    vstd::seq_lib::seq_to_set_is_finite(bindings);
    assert(pair.subset_of(all));
    assert(pair.len() == 2);
    vstd::set_lib::lemma_len_subset(pair, all);
}

proof fn lemma_record_run(
    request: LocalBlobCleanupIntent,
    needs: CopyNeeds,
    bound: Option<ObjectHash>,
    states: Seq<RecordObsoleteCopies>,
    replies: Seq<RecordReply>,
    n: int,
)
    requires
        is_record_run(request, needs, states, replies),
        request.identity is Row ==> is_bound_to(needs.bindings, bound),
        0 <= n < states.len(),
    ensures
        states[n].namespace@ == request.namespace@ && states[n].blob_id@ == request.blob_id@,
        ({
            let done = recorded_obligations(states, replies, n);
            let exact = owed_exact(request, needs, bound);
            let local = owed_local(request, needs);
            match states[n].step {
                RecordStep::ReadBindings { .. } => request.identity is Row && done =~= seq![],
                RecordStep::CheckExact { hash } => request.identity is Row && bound == Some(hash)
                    && done =~= seq![],
                RecordStep::RecordExact { intent } => done =~= seq![] && exact == seq![
                    obligation_of(intent),
                ],
                RecordStep::CheckLocal => done =~= exact,
                RecordStep::RecordLocal { intent } => done =~= exact && local == seq![
                    obligation_of(intent),
                ],
                RecordStep::Done => done =~= exact + local,
                RecordStep::Failed { .. } => true,
            }
        }),
    decreases n,
{
    if n > 0 {
        let (before, after, reply) = (states[n - 1], states[n], replies[n - 1]);
        lemma_record_run(request, needs, bound, states, replies, n - 1);
        assert(states[n - 1].follows(replies[n - 1], states[n - 1 + 1]));
        assert(record_answers(needs, states[n - 1].step, replies[n - 1]));
        match (before.step, reply) {
            (RecordStep::ReadBindings { table, row_id }, RecordReply::Bindings(Ok(_))) => {
                match bound {
                    Some(hash) => lemma_one_binding(needs.bindings, hash, table@, row_id@),
                    None => lemma_no_binding(needs.bindings, table@, row_id@),
                }
            },
            _ => {},
        }
        assert(recorded_obligations(states, replies, n) =~= recorded_obligations(
            states,
            replies,
            n - 1,
        ) + now_recorded(before, reply));
    }
}

/// Recording that is done has recorded exactly what is owed, whatever was asked: for a
/// deleted row, the cached copies of the locator it is bound to where no live row needs
/// them, and then, bound or not, the local store's copy where no live row needs it.
pub proof fn law_recording_leaves_no_obligation_out(
    request: LocalBlobCleanupIntent,
    needs: CopyNeeds,
    bound: Option<ObjectHash>,
    states: Seq<RecordObsoleteCopies>,
    replies: Seq<RecordReply>,
)
    requires
        is_record_run(request, needs, states, replies),
        request.identity is Row ==> is_bound_to(needs.bindings, bound),
        states.last().step is Done,
    ensures
        recorded_obligations(states, replies, replies.len() as int) == owed_exact(
            request,
            needs,
            bound,
        ) + owed_local(request, needs),
{
    lemma_record_run(request, needs, bound, states, replies, replies.len() as int);
}

/// Recording fails only on an operation that failed, and where a row's bindings name
/// different locators; whatever else is answered, it goes on.
pub proof fn law_recording_goes_on_unless_an_operation_failed(
    before: RecordObsoleteCopies,
    reply: RecordReply,
    after: RecordObsoleteCopies,
)
    requires
        before.follows(reply, after),
        !(before.step is Done) && !(before.step is Failed),
    ensures
        match (before.step, reply) {
            (RecordStep::ReadBindings { .. }, RecordReply::Bindings(bindings)) => {
                &&& bindings matches Err(error) ==> after.step == (RecordStep::Failed { error })
                &&& forall|bound: Option<ObjectHash>|
                    bindings is Ok && #[trigger] is_bound_to(texts(bindings->Ok_0@), bound)
                        ==> !(after.step is Failed)
                &&& forall|i: int, j: int|
                    #![trigger texts(bindings->Ok_0@)[i], texts(bindings->Ok_0@)[j]]
                    bindings is Ok && 0 <= i < j < bindings->Ok_0@.len() && texts(
                        bindings->Ok_0@,
                    )[i] != texts(bindings->Ok_0@)[j] ==> after.step is Failed
            },
            (RecordStep::CheckExact { .. }, RecordReply::Referenced(referenced)) => match referenced {
                Ok(_) => !(after.step is Failed) && after.step != before.step,
                Err(error) => after.step == (RecordStep::Failed { error }),
            },
            (RecordStep::CheckLocal, RecordReply::Referenced(referenced)) => match referenced {
                Ok(_) => !(after.step is Failed) && after.step != before.step,
                Err(error) => after.step == (RecordStep::Failed { error }),
            },
            (RecordStep::RecordExact { .. }, RecordReply::Recorded(recorded)) => match recorded {
                Ok(_) => !(after.step is Failed) && after.step != before.step,
                Err(error) => after.step == (RecordStep::Failed { error }),
            },
            (RecordStep::RecordLocal { .. }, RecordReply::Recorded(recorded)) => match recorded {
                Ok(_) => !(after.step is Failed) && after.step != before.step,
                Err(error) => after.step == (RecordStep::Failed { error }),
            },
            _ => after == before,
        },
{
    match (before.step, reply) {
        (RecordStep::ReadBindings { table, row_id }, RecordReply::Bindings(Ok(hashes))) => {
            let bindings = texts(hashes@);
            assert forall|bound: Option<ObjectHash>| #[trigger] is_bound_to(bindings, bound) implies !(
            after.step is Failed) by {
                match bound {
                    Some(hash) => lemma_one_binding(bindings, hash, table@, row_id@),
                    None => lemma_no_binding(bindings, table@, row_id@),
                }
            }
            assert forall|i: int, j: int|
                #![trigger bindings[i], bindings[j]]
                0 <= i < j < hashes@.len() && bindings[i] != bindings[j] implies after.step is Failed by {
                lemma_two_bindings(bindings, i, j);
            }
        },
        _ => {},
    }
}

/// The obligations whose copies no write leases, in their order.
pub open spec fn unleased(pending: Seq<(LocalBlobCleanupIntent, bool)>) -> Seq<LocalBlobCleanupIntent>
    decreases pending.len(),
{
    if pending.len() == 0 {
        seq![]
    } else {
        let rest = unleased(pending.skip(1));
        if pending[0].1 {
            rest
        } else {
            seq![pending[0].0] + rest
        }
    }
}

/// Whether a write leases the copy of one of the obligations.
pub open spec fn some_leased(pending: Seq<(LocalBlobCleanupIntent, bool)>) -> bool {
    exists|i: int| 0 <= i < pending.len() && (#[trigger] pending[i]).1
}

/// The obligations that a pass has still to drop.
spec fn to_drop(drain: CleanupDrain) -> Seq<LocalBlobCleanupIntent> {
    (match drain.step {
        CleanupStep::DropLocal { intent } => seq![intent],
        CleanupStep::DropExact { intent, .. } => seq![intent],
        _ => seq![],
    }) + unleased(drain.pending@)
}

/// The obligations that a pass has still to see to: the one at hand, and those behind it.
pub open spec fn obligations_left(drain: CleanupDrain) -> Seq<LocalBlobCleanupIntent> {
    (match drain.step {
        CleanupStep::DropLocal { intent } => seq![intent],
        CleanupStep::DropExact { intent, .. } => seq![intent],
        CleanupStep::RemoveIntent { intent } => seq![intent],
        _ => seq![],
    }) + unleased(drain.pending@)
}

/// The obligation whose copies are dropped with this reply.
pub open spec fn now_dropped(drain: CleanupDrain, reply: CleanupReply) -> Seq<LocalBlobCleanupIntent> {
    match (drain.step, reply) {
        (CleanupStep::DropLocal { intent }, CleanupReply::Dropped(Ok(_))) => seq![intent],
        (CleanupStep::DropExact { intent, .. }, CleanupReply::Dropped(Ok(_))) => seq![intent],
        _ => seq![],
    }
}

/// The obligation that is removed with this reply.
pub open spec fn now_removed(drain: CleanupDrain, reply: CleanupReply) -> Seq<LocalBlobCleanupIntent> {
    match (drain.step, reply) {
        (CleanupStep::RemoveIntent { intent }, CleanupReply::Removed(Ok(_))) => seq![intent],
        _ => seq![],
    }
}

/// The obligations whose copies were dropped in the first `n` operations of a run.
pub open spec fn dropped_copies(states: Seq<CleanupDrain>, replies: Seq<CleanupReply>, n: int) -> Seq<
    LocalBlobCleanupIntent,
>
    decreases n,
{
    if n <= 0 {
        seq![]
    } else {
        dropped_copies(states, replies, n - 1) + now_dropped(states[n - 1], replies[n - 1])
    }
}

/// The obligations that were removed in the first `n` operations of a run.
pub open spec fn removed_obligations(
    states: Seq<CleanupDrain>,
    replies: Seq<CleanupReply>,
    n: int,
) -> Seq<LocalBlobCleanupIntent>
    decreases n,
{
    if n <= 0 {
        seq![]
    } else {
        removed_obligations(states, replies, n - 1) + now_removed(states[n - 1], replies[n - 1])
    }
}

/// What a copy is dropped by goes by what the obligation is for.
pub open spec fn drops_the_right_copy(step: CleanupStep) -> bool {
    match step {
        CleanupStep::DropLocal { intent } => intent.identity is Local,
        CleanupStep::DropExact { intent, hash } => intent.identity
            == LocalBlobCleanupIdentity::Exact(hash),
        _ => true,
    }
}

/// A pass that has these obligations before it and has done nothing yet.
pub open spec fn is_cleanup_start(
    drain: CleanupDrain,
    pending: Seq<(LocalBlobCleanupIntent, bool)>,
) -> bool {
    &&& !(drain.step is RemoveIntent)
    &&& drops_the_right_copy(drain.step)
    &&& !(drain.step is Failed) ==> obligations_left(drain) == unleased(pending) && (drain.blocked
        || some_leased(drain.pending@)) == some_leased(pending)
    &&& drain.step is Done ==> drain.pending@.len() == 0
    &&& drain.step is Failed ==> exists|i: int|
        0 <= i < pending.len() && (#[trigger] pending[i]).0.identity is Row
}

/// A run over these obligations.
pub open spec fn is_cleanup_run(
    pending: Seq<(LocalBlobCleanupIntent, bool)>,
    states: Seq<CleanupDrain>,
    replies: Seq<CleanupReply>,
) -> bool {
    &&& states.len() == replies.len() + 1
    &&& is_cleanup_start(states[0], pending)
    &&& forall|i: int|
        0 <= i < replies.len() ==> states[i].follows(#[trigger] replies[i], states[i + 1])
}

/// What a pass turns to next, and what is left behind it, are all of the obligations that
/// are not leased; and it remembers that one was.
pub(crate) proof fn lemma_next_cleanup_skips_none(
    pending: Seq<(LocalBlobCleanupIntent, bool)>,
    blocked: bool,
    after: CleanupDrain,
)
    requires
        next_cleanup(pending, blocked, after.pending@, after.blocked, after.step),
    ensures
        !(after.step is RemoveIntent),
        drops_the_right_copy(after.step),
        !(after.step is Failed) ==> obligations_left(after) == unleased(pending),
        !(after.step is Failed) ==> (after.blocked || some_leased(after.pending@)) == (blocked
            || some_leased(pending)),
        after.step is Done ==> after.pending@.len() == 0,
        after.step is Failed ==> exists|i: int|
            0 <= i < pending.len() && (#[trigger] pending[i]).0.identity is Row,
    decreases pending.len(),
{
    if pending.len() == 0 {
        assert(obligations_left(after) =~= unleased(pending));
    } else {
        let rest = pending.skip(1);
        assert(forall|i: int| 0 <= i < rest.len() ==> #[trigger] rest[i] == pending[i + 1]);
        assert(some_leased(pending) == (pending[0].1 || some_leased(rest))) by {
            if some_leased(pending) && !pending[0].1 {
                let i = choose|i: int| 0 <= i < pending.len() && (#[trigger] pending[i]).1;
                assert(rest[i - 1].1);
            }
            if some_leased(rest) {
                let i = choose|i: int| 0 <= i < rest.len() && (#[trigger] rest[i]).1;
                assert(pending[i + 1].1);
            }
        }
        if pending[0].1 {
            lemma_next_cleanup_skips_none(rest, true, after);
            if after.step is Failed {
                let i = choose|i: int| 0 <= i < rest.len() && (#[trigger] rest[i]).0.identity is Row;
                assert(pending[i + 1].0.identity is Row);
            }
        } else {
            assert(after.pending@ == rest);
            if after.step is Failed {
                assert(pending[0].0.identity is Row);
            }
        }
    }
}

proof fn lemma_cleanup_run(
    pending: Seq<(LocalBlobCleanupIntent, bool)>,
    states: Seq<CleanupDrain>,
    replies: Seq<CleanupReply>,
    n: int,
)
    requires
        is_cleanup_run(pending, states, replies),
        0 <= n < states.len(),
    ensures
        drops_the_right_copy(states[n].step),
        !(states[n].step is Failed) ==> {
            &&& dropped_copies(states, replies, n) + to_drop(states[n]) == unleased(pending)
            &&& removed_obligations(states, replies, n) + obligations_left(states[n]) == unleased(
                pending,
            )
            &&& (states[n].blocked || some_leased(states[n].pending@)) == some_leased(pending)
            &&& states[n].step is Done ==> states[n].pending@.len() == 0
        },
    decreases n,
{
    if n == 0 {
        assert(to_drop(states[0]) =~= obligations_left(states[0]));
        assert(seq![] + obligations_left(states[0]) =~= obligations_left(states[0]));
    } else {
        let (before, after, reply) = (states[n - 1], states[n], replies[n - 1]);
        lemma_cleanup_run(pending, states, replies, n - 1);
        assert(states[n - 1].follows(replies[n - 1], states[n - 1 + 1]));
        let rest = unleased(before.pending@);
        if before.step is RemoveIntent && (reply matches CleanupReply::Removed(Ok(_))) {
            lemma_next_cleanup_skips_none(before.pending@, before.blocked, after);
            assert(to_drop(after) =~= obligations_left(after));
        }
        let (d, r) = (dropped_copies(states, replies, n - 1), removed_obligations(states, replies, n - 1));
        let (dn, rn) = (now_dropped(before, reply), now_removed(before, reply));
        if !(after.step is Failed) {
            assert(to_drop(before) =~= dn + to_drop(after));
            assert(obligations_left(before) =~= rn + obligations_left(after));
            assert(d + (dn + to_drop(after)) =~= d + dn + to_drop(after));
            assert(r + (rn + obligations_left(after)) =~= r + rn + obligations_left(after));
        }
    }
}

/// A cleanup pass that is done has dropped the copies of every obligation that no write
/// leases, each by what it is for, has removed exactly those obligations, all in their
/// order, and says that it was blocked exactly where one was leased.
pub proof fn law_finished_cleanup_dropped_every_unleased_copy(
    pending: Seq<(LocalBlobCleanupIntent, bool)>,
    states: Seq<CleanupDrain>,
    replies: Seq<CleanupReply>,
)
    requires
        is_cleanup_run(pending, states, replies),
        states.last().step is Done,
    ensures
        dropped_copies(states, replies, replies.len() as int) == unleased(pending),
        removed_obligations(states, replies, replies.len() as int) == unleased(pending),
        states.last().blocked == some_leased(pending),
        forall|i: int| 0 <= i < states.len() ==> drops_the_right_copy((#[trigger] states[i]).step),
{
    let n = replies.len() as int;
    lemma_cleanup_run(pending, states, replies, n);
    assert(to_drop(states[n]) =~= seq![]);
    assert(obligations_left(states[n]) =~= seq![]);
    assert(dropped_copies(states, replies, n) + seq![] =~= dropped_copies(states, replies, n));
    assert(removed_obligations(states, replies, n) + seq![] =~= removed_obligations(
        states,
        replies,
        n,
    ));
    assert forall|i: int| 0 <= i < states.len() implies drops_the_right_copy(
        (#[trigger] states[i]).step,
    ) by {
        lemma_cleanup_run(pending, states, replies, i);
    }
}

/// A cleanup pass fails only on an operation that failed, or on an obligation that is bound
/// to a row; whatever else is answered, it goes on.
pub proof fn law_cleanup_goes_on_unless_an_operation_failed(
    before: CleanupDrain,
    reply: CleanupReply,
    after: CleanupDrain,
)
    requires
        before.follows(reply, after),
        !(before.step is Done) && !(before.step is Failed),
    ensures
        match (before.step, reply) {
            (CleanupStep::DropLocal { intent }, CleanupReply::Dropped(done)) => match done {
                Ok(_) => after.step == (CleanupStep::RemoveIntent { intent }),
                Err(detail) => after.step matches CleanupStep::Failed { error } && error@
                    == DbErrorView::Message(
                    "remove local copies for "@ + intent.namespace@ + "/"@ + intent.blob_id@ + ": "@
                        + detail@,
                ),
            },
            (CleanupStep::DropExact { intent, .. }, CleanupReply::Dropped(done)) => match done {
                Ok(_) => after.step == (CleanupStep::RemoveIntent { intent }),
                Err(detail) => after.step matches CleanupStep::Failed { error } && error@
                    == DbErrorView::Message(
                    "remove local copies for "@ + intent.namespace@ + "/"@ + intent.blob_id@ + ": "@
                        + detail@,
                ),
            },
            (CleanupStep::RemoveIntent { .. }, CleanupReply::Removed(removed)) => {
                &&& removed matches Err(error) ==> after.step == (CleanupStep::Failed { error })
                &&& removed is Ok && (forall|i: int|
                    0 <= i < before.pending@.len() ==> !((
                    #[trigger] before.pending@[i]).0.identity is Row)) ==> !(after.step is Failed)
                    && !(after.step is RemoveIntent)
            },
            _ => after == before,
        },
{
    if before.step is RemoveIntent && (reply matches CleanupReply::Removed(Ok(_))) {
        lemma_next_cleanup_skips_none(before.pending@, before.blocked, after);
    }
}

} // verus!
