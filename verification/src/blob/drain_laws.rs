//! What a pass over the queued deletions comes to as a whole.
//!
//! The laws take the queue and what stands at the tombstone keys as given, and say which
//! tombstones are written and which entries leave the queue once the pass is done.

use vstd::prelude::*;

use crate::blob::delete::{
    next_delete, signing_payload, TombstoneDrain, TombstoneDrainError, TombstoneRead, TombstoneReply, TombstoneStep,
    TombstoneWriteError,
};
use crate::blob::locator::StoredView;
use crate::blob::retry::backoff_seconds;
use crate::clock::{nanos_between, rfc3339, Instant};
use crate::outbox::{OutboxEntry, OutboxOperation};

verus! {

/// Whether an entry is left alone at `now`: it was tried before, and less than its backoff
/// has passed since.
pub open spec fn is_left_alone(entry: OutboxEntry, now: Instant) -> bool {
    match entry.last_attempt_at {
        None => false,
        Some(text) => rfc3339(text@) is Ok && nanos_between(
            Instant { seconds: rfc3339(text@)->Ok_0.0, nanos: rfc3339(text@)->Ok_0.1 },
            now,
        ) < backoff_seconds(entry.attempt_count as int) * 1_000_000_000,
    }
}

/// The queued deletions that are due, in queue order.
pub open spec fn due_deletes(queue: Seq<OutboxEntry>, now: Instant) -> Seq<OutboxEntry>
    decreases queue.len(),
{
    if queue.len() == 0 {
        seq![]
    } else {
        let rest = due_deletes(queue.skip(1), now);
        if queue[0].operation is Delete && !is_left_alone(queue[0], now) {
            seq![queue[0]] + rest
        } else {
            rest
        }
    }
}

/// No upload is among the queued deletions.
pub open spec fn holds_only_deletes(queue: Seq<OutboxEntry>) -> bool {
    forall|i: int| 0 <= i < queue.len() ==> (#[trigger] queue[i]).operation is Delete
}

/// The deletions that a pass has still to settle: the one at hand, and the due ones behind
/// it.
pub open spec fn deletes_left(drain: TombstoneDrain) -> Seq<OutboxEntry> {
    (match drain.step {
        TombstoneStep::ReadTombstone { job } => seq![job.entry_spec()],
        TombstoneStep::WriteTombstone { job, .. } => seq![job.entry_spec()],
        TombstoneStep::RemoveEntry { job } => seq![job.entry_spec()],
        _ => seq![],
    }) + due_deletes(drain.pending@, drain.now)
}

/// The deletions whose tombstones a pass has still to see to.
spec fn tombstones_left(drain: TombstoneDrain) -> Seq<OutboxEntry> {
    (match drain.step {
        TombstoneStep::ReadTombstone { job } => seq![job.entry_spec()],
        TombstoneStep::WriteTombstone { job, .. } => seq![job.entry_spec()],
        _ => seq![],
    }) + due_deletes(drain.pending@, drain.now)
}

/// Whether what stands at the tombstone key of a stored blob spares a new one: it condemns
/// this very blob, and its signature was found to hold in this store.
pub open spec fn is_tombstoned(
    there: Map<StoredView, TombstoneRead>,
    store_id: Seq<char>,
    stored: StoredView,
) -> bool {
    match there[stored] {
        TombstoneRead::Read { tombstone, check } => {
            &&& tombstone.stored@ == stored
            &&& check.valid
            &&& check.pubkey@ == tombstone.author_pubkey@
            &&& check.signature@ == tombstone.signature@
            &&& check.payload@ == signing_payload(store_id, stored, tombstone.deleted_at@)
        },
        _ => false,
    }
}

/// The stored blob that an entry condemns.
pub open spec fn doomed(entry: OutboxEntry) -> StoredView {
    entry.operation->stored@
}

/// The blobs that get a tombstone, for these due deletions.
pub open spec fn blobs_to_condemn(
    there: Map<StoredView, TombstoneRead>,
    store_id: Seq<char>,
    due: Seq<OutboxEntry>,
) -> Seq<StoredView>
    decreases due.len(),
{
    if due.len() == 0 {
        seq![]
    } else {
        let rest = blobs_to_condemn(there, store_id, due.skip(1));
        if is_tombstoned(there, store_id, doomed(due[0])) {
            rest
        } else {
            seq![doomed(due[0])] + rest
        }
    }
}

/// The entries that left the queue in the first `n` operations of a run.
pub open spec fn removed_entries(
    states: Seq<TombstoneDrain>,
    replies: Seq<TombstoneReply>,
    n: int,
) -> Seq<OutboxEntry>
    decreases n,
{
    if n <= 0 {
        seq![]
    } else {
        removed_entries(states, replies, n - 1) + entry_now_removed(states[n - 1], replies[n - 1])
    }
}

/// The entry that leaves the queue with this reply.
pub open spec fn entry_now_removed(drain: TombstoneDrain, reply: TombstoneReply) -> Seq<OutboxEntry> {
    match (drain.step, reply) {
        (TombstoneStep::RemoveEntry { job }, TombstoneReply::Local(Ok(_))) => seq![job.entry_spec()],
        _ => seq![],
    }
}

/// The blobs for which a tombstone was written in the first `n` operations of a run.
pub open spec fn condemned_blobs(
    states: Seq<TombstoneDrain>,
    replies: Seq<TombstoneReply>,
    n: int,
) -> Seq<StoredView>
    decreases n,
{
    if n <= 0 {
        seq![]
    } else {
        condemned_blobs(states, replies, n - 1) + blob_now_condemned(states[n - 1], replies[n - 1])
    }
}

/// The blob whose tombstone is written with this reply.
pub open spec fn blob_now_condemned(drain: TombstoneDrain, reply: TombstoneReply) -> Seq<StoredView> {
    match (drain.step, reply) {
        (TombstoneStep::WriteTombstone { job, .. }, TombstoneReply::Written(Ok(_))) => seq![
            job.stored@,
        ],
        _ => seq![],
    }
}

/// One step of a run.
#[verifier::opaque]
pub open spec fn drain_leads(
    before: TombstoneDrain,
    reply: TombstoneReply,
    after: TombstoneDrain,
) -> bool {
    before.follows(reply, after)
}

/// A run over a queue, where these reads are answered at the tombstone keys: it starts with
/// the whole queue before it, and each state follows from the one before by its reply.
pub open spec fn is_drain_run(
    queue: Seq<OutboxEntry>,
    there: Map<StoredView, TombstoneRead>,
    states: Seq<TombstoneDrain>,
    replies: Seq<TombstoneReply>,
) -> bool {
    &&& states.len() == replies.len() + 1
    &&& states[0].wf()
    &&& states[0].written == 0
    &&& states[0].step is ReadTombstone || states[0].step is Done || states[0].step is Failed
    &&& !(states[0].step is Failed) ==> deletes_left(states[0]) == due_deletes(
        queue,
        states[0].now,
    ) && holds_only_deletes(states[0].pending@) == holds_only_deletes(queue)
    &&& states[0].step is Done ==> states[0].pending@.len() == 0
    &&& forall|i: int|
        0 <= i < replies.len() ==> drain_leads(states[i], #[trigger] replies[i], states[i + 1])
    &&& forall|i: int|
        0 <= i < replies.len() ==> ((#[trigger] replies[i]) matches TombstoneReply::Read(read) && (
        states[i].step matches TombstoneStep::ReadTombstone { job } ==> read == there[job.stored@]))
            || !(replies[i] is Read)
}

proof fn lemma_waiting_is_backoff(entry: OutboxEntry, now: Instant)
    ensures
        is_left_alone(entry, now) == crate::blob::retry::in_backoff(
            entry@.attempt_count as int,
            entry@.last_attempt_at,
            now,
        ),
{
}

/// The first entry that is not left alone is an upload, and this error names it.
pub open spec fn meets_an_upload(
    queue: Seq<OutboxEntry>,
    now: Instant,
    error: TombstoneDrainError,
) -> bool {
    exists|k: int|
        {
            &&& 0 <= k < queue.len()
            &&& (#[trigger] queue[k]).operation is Upload
            &&& error == TombstoneDrainError::NotADelete(queue[k].id)
            &&& forall|j: int|
                0 <= j < k ==> (#[trigger] queue[j]).operation is Delete && is_left_alone(queue[j], now)
        }
}

/// What a pass turns to next, and what is left behind it, are all of the due deletions,
/// unless it meets an upload.
pub(crate) proof fn lemma_next_delete_skips_none(queue: Seq<OutboxEntry>, now: Instant)
    ensures
        ({
            let (rest, step) = next_delete(queue, now);
            match step {
                TombstoneStep::ReadTombstone { job } => due_deletes(queue, now) == seq![
                    job.entry_spec(),
                ] + due_deletes(rest, now),
                TombstoneStep::Done => due_deletes(queue, now).len() == 0 && rest.len() == 0,
                TombstoneStep::Failed { error } => meets_an_upload(queue, now, error),
                _ => false,
            }
        }),
        !(next_delete(queue, now).1 is Failed) ==> holds_only_deletes(next_delete(queue, now).0)
            == holds_only_deletes(queue),
        forall|drain: TombstoneDrain|
            #![trigger deletes_left(drain)]
            (drain.pending@, drain.step) == next_delete(queue, now) && drain.now == now && !(
            drain.step is Failed) ==> deletes_left(drain) == due_deletes(queue, now),
    decreases queue.len(),
{
    if queue.len() > 0 {
        lemma_waiting_is_backoff(queue[0], now);
        lemma_next_delete_skips_none(queue.skip(1), now);
        match queue[0].operation {
            OutboxOperation::Upload { .. } => {
                assert(queue[0].operation is Upload);
                assert(meets_an_upload(queue, now, TombstoneDrainError::NotADelete(queue[0].id)));
            },
            OutboxOperation::Delete { stored } => {
                let rest = queue.skip(1);
                assert(forall|i: int| 0 <= i < rest.len() ==> #[trigger] rest[i] == queue[i + 1]);
                assert(holds_only_deletes(rest) == holds_only_deletes(queue)) by {
                    if holds_only_deletes(rest) {
                        assert forall|i: int| 0 <= i < queue.len() implies (
                        #[trigger] queue[i]).operation is Delete by {
                            if i > 0 {
                                assert(rest[i - 1].operation is Delete);
                            }
                        }
                    }
                    if holds_only_deletes(queue) {
                        assert forall|i: int| 0 <= i < rest.len() implies (
                        #[trigger] rest[i]).operation is Delete by {
                            assert(queue[i + 1].operation is Delete);
                        }
                    }
                }
                if is_left_alone(queue[0], now) {
                    if let TombstoneStep::Failed { error } = next_delete(queue, now).1 {
                        let k = choose|k: int|
                            {
                                &&& 0 <= k < rest.len()
                                &&& (#[trigger] rest[k]).operation is Upload
                                &&& error == TombstoneDrainError::NotADelete(rest[k].id)
                                &&& forall|j: int|
                                    0 <= j < k ==> (#[trigger] rest[j]).operation is Delete
                                        && is_left_alone(rest[j], now)
                            };
                        assert(queue[k + 1].operation is Upload);
                        assert forall|j: int| 0 <= j < k + 1 implies (
                        #[trigger] queue[j]).operation is Delete && is_left_alone(queue[j], now) by {
                            if j > 0 {
                                assert(rest[j - 1].operation is Delete);
                            }
                        }
                    }
                }
                if !is_left_alone(queue[0], now) {
                    assert(next_delete(queue, now).1->ReadTombstone_job.entry_spec() == queue[0]);
                }
            },
        }
    }
    assert forall|drain: TombstoneDrain|
        (drain.pending@, drain.step) == next_delete(queue, now) && drain.now == now && !(
        drain.step is Failed) implies #[trigger] deletes_left(drain) == due_deletes(queue, now) by {
        if drain.step is Done {
            assert(deletes_left(drain) =~= due_deletes(queue, now));
        }
    }
}

proof fn lemma_drain_step(
    before: TombstoneDrain,
    reply: TombstoneReply,
    after: TombstoneDrain,
    there: Map<StoredView, TombstoneRead>,
)
    requires
        drain_leads(before, reply, after),
        before.wf(),
        !(after.step is Failed) && !(after.step is RecordFailure),
        reply matches TombstoneReply::Read(read) ==> (
        before.step matches TombstoneStep::ReadTombstone { job } ==> read == there[job.stored@]),
        before.step matches TombstoneStep::WriteTombstone { job, .. } ==> !is_tombstoned(
            there,
            before.store_id@,
            job.stored@,
        ),
    ensures
        deletes_left(before) == entry_now_removed(before, reply) + deletes_left(after),
        blobs_to_condemn(there, before.store_id@, tombstones_left(before)) == blob_now_condemned(
            before,
            reply,
        ) + blobs_to_condemn(there, after.store_id@, tombstones_left(after)),
        after.written == before.written + blob_now_condemned(before, reply).len(),
        after.step matches TombstoneStep::WriteTombstone { job, .. } ==> !is_tombstoned(
            there,
            after.store_id@,
            job.stored@,
        ),
        after.store_id == before.store_id && after.now == before.now,
        holds_only_deletes(after.pending@) == holds_only_deletes(before.pending@),
        after.step is Done && !(before.step is Done) ==> after.pending@.len() == 0,
{
    reveal(drain_leads);
    let rest = due_deletes(before.pending@, before.now);
    assert(seq![] + deletes_left(after) =~= deletes_left(after));
    assert(seq![] + rest =~= rest);
    assert(seq![] + blobs_to_condemn(there, after.store_id@, tombstones_left(after))
        =~= blobs_to_condemn(there, after.store_id@, tombstones_left(after)));
    match before.step {
        TombstoneStep::RemoveEntry { job } => {
            if reply matches TombstoneReply::Local(Ok(_)) {
                lemma_next_delete_skips_none(before.pending@, before.now);
                assert(deletes_left(after) == rest);
                assert(tombstones_left(after) =~= deletes_left(after));
                assert(tombstones_left(before) =~= rest);
            }
        },
        TombstoneStep::ReadTombstone { job } => {
            let left = tombstones_left(before);
            assert(left[0] == job.entry_spec());
            assert(left.skip(1) =~= rest);
            match reply {
                TombstoneReply::Read(read) => {
                    assert(tombstones_left(after) =~= (if after.step is RemoveEntry {
                        rest
                    } else {
                        left
                    }));
                },
                _ => {},
            }
        },
        TombstoneStep::WriteTombstone { job, .. } => {
            let left = tombstones_left(before);
            assert(left[0] == job.entry_spec());
            assert(left.skip(1) =~= rest);
            if reply matches TombstoneReply::Written(Ok(_)) {
                assert(tombstones_left(after) =~= rest);
            }
        },
        _ => {},
    }
}

proof fn lemma_drain_end_stays(before: TombstoneDrain, reply: TombstoneReply, after: TombstoneDrain)
    requires
        drain_leads(before, reply, after),
        before.wf(),
    ensures
        before.step is Failed || before.step is Done ==> after == before,
        before.step is RecordFailure ==> after.step is RecordFailure || after.step is Failed,
        after.wf(),
{
    reveal(drain_leads);
    crate::blob::delete::lemma_next_delete_is_shorter(before.pending@, before.now);
}

proof fn lemma_drain_run(
    queue: Seq<OutboxEntry>,
    there: Map<StoredView, TombstoneRead>,
    states: Seq<TombstoneDrain>,
    replies: Seq<TombstoneReply>,
    n: int,
)
    requires
        is_drain_run(queue, there, states, replies),
        0 <= n < states.len(),
    ensures
        states[n].wf(),
        !(states[n].step is Failed) && !(states[n].step is RecordFailure) ==> {
            &&& states[n].store_id == states[0].store_id
            &&& states[n].now == states[0].now
            &&& removed_entries(states, replies, n) + deletes_left(states[n]) == due_deletes(
                queue,
                states[0].now,
            )
            &&& condemned_blobs(states, replies, n) + blobs_to_condemn(
                there,
                states[n].store_id@,
                tombstones_left(states[n]),
            ) == blobs_to_condemn(there, states[0].store_id@, due_deletes(queue, states[0].now))
            &&& states[n].written == condemned_blobs(states, replies, n).len()
            &&& holds_only_deletes(states[n].pending@) == holds_only_deletes(queue)
            &&& (states[n].step matches TombstoneStep::WriteTombstone { job, .. } ==> !is_tombstoned(
                there,
                states[n].store_id@,
                job.stored@,
            ))
            &&& (states[n].step is Done ==> states[n].pending@.len() == 0)
        },
    decreases n,
{
    if n == 0 {
        assert(seq![] + deletes_left(states[0]) =~= deletes_left(states[0]));
        assert(tombstones_left(states[0]) =~= deletes_left(states[0]));
        assert(seq![] + blobs_to_condemn(there, states[0].store_id@, tombstones_left(states[0]))
            =~= blobs_to_condemn(there, states[0].store_id@, tombstones_left(states[0])));
    } else {
        let (before, after, reply) = (states[n - 1], states[n], replies[n - 1]);
        lemma_drain_run(queue, there, states, replies, n - 1);
        assert(drain_leads(states[n - 1], replies[n - 1], states[n - 1 + 1]));
        lemma_drain_end_stays(before, reply, after);
        if !(after.step is Failed) && !(after.step is RecordFailure) {
            lemma_drain_step(before, reply, after, there);
            let done = removed_entries(states, replies, n - 1);
            let more = entry_now_removed(before, reply);
            assert(done + (more + deletes_left(after)) =~= done + more + deletes_left(after));
            let old_blobs = condemned_blobs(states, replies, n - 1);
            let new_blobs = blob_now_condemned(before, reply);
            let left = blobs_to_condemn(there, after.store_id@, tombstones_left(after));
            assert(old_blobs + (new_blobs + left) =~= old_blobs + new_blobs + left);
        }
    }
}

/// Whatever the operations reply: a pass that is done has removed from the queue exactly
/// the deletions that were due, each once and in queue order. It has written a tombstone
/// for exactly those of their blobs that had no tombstone that counts, counts them, and
/// has nothing pending. No upload was among the deletions.
pub proof fn law_finished_drain_settled_every_due_delete(
    queue: Seq<OutboxEntry>,
    there: Map<StoredView, TombstoneRead>,
    states: Seq<TombstoneDrain>,
    replies: Seq<TombstoneReply>,
)
    requires
        is_drain_run(queue, there, states, replies),
        states.last().step is Done,
    ensures
        removed_entries(states, replies, replies.len() as int) == due_deletes(
            queue,
            states[0].now,
        ),
        condemned_blobs(states, replies, replies.len() as int) == blobs_to_condemn(
            there,
            states[0].store_id@,
            due_deletes(queue, states[0].now),
        ),
        states.last().written == condemned_blobs(states, replies, replies.len() as int).len(),
        states.last().pending@.len() == 0,
        holds_only_deletes(queue),
{
    let n = replies.len() as int;
    lemma_drain_run(queue, there, states, replies, n);
    let last = states[n];
    assert(deletes_left(last) =~= seq![]);
    assert(tombstones_left(last) =~= seq![]);
    assert(removed_entries(states, replies, n) + seq![] =~= removed_entries(states, replies, n));
    assert(condemned_blobs(states, replies, n) + seq![] =~= condemned_blobs(states, replies, n));
}

/// An entry leaves the queue only after its own tombstone: whenever one has left, either a
/// tombstone for its blob was written by this pass before, or one that counts was there.
pub proof fn law_no_entry_leaves_without_its_tombstone(
    queue: Seq<OutboxEntry>,
    there: Map<StoredView, TombstoneRead>,
    states: Seq<TombstoneDrain>,
    replies: Seq<TombstoneReply>,
    n: int,
    k: int,
)
    requires
        is_drain_run(queue, there, states, replies),
        0 <= n < states.len(),
        0 <= k < removed_entries(states, replies, n).len(),
    ensures
        ({
            let blob = doomed(removed_entries(states, replies, n)[k]);
            is_tombstoned(there, states[0].store_id@, blob) || condemned_blobs(
                states,
                replies,
                n,
            ).contains(blob)
        }),
    decreases n,
{
    if n > 0 {
        let (before, reply) = (states[n - 1], replies[n - 1]);
        let old_entries = removed_entries(states, replies, n - 1);
        let old_blobs = condemned_blobs(states, replies, n - 1);
        let blobs = condemned_blobs(states, replies, n);
        if k < old_entries.len() {
            law_no_entry_leaves_without_its_tombstone(queue, there, states, replies, n - 1, k);
            let blob = doomed(old_entries[k]);
            assert(removed_entries(states, replies, n)[k] == old_entries[k]);
            if old_blobs.contains(blob) {
                let b = old_blobs.index_of(blob);
                assert(blobs[b] == blob);
            }
        } else {
            lemma_tombstone_before_removal(queue, there, states, replies, n - 1);
            let blob = doomed(removed_entries(states, replies, n)[k]);
            assert(blob == before.step->RemoveEntry_job.stored@);
            if old_blobs.contains(blob) {
                let b = old_blobs.index_of(blob);
                assert(blobs[b] == blob);
            }
        }
    }
}

proof fn lemma_tombstone_before_removal(
    queue: Seq<OutboxEntry>,
    there: Map<StoredView, TombstoneRead>,
    states: Seq<TombstoneDrain>,
    replies: Seq<TombstoneReply>,
    n: int,
)
    requires
        is_drain_run(queue, there, states, replies),
        0 <= n < states.len(),
    ensures
        states[n].store_id == states[0].store_id,
        states[n].step matches TombstoneStep::RemoveEntry { job } ==> is_tombstoned(
            there,
            states[0].store_id@,
            job.stored@,
        ) || condemned_blobs(states, replies, n).contains(job.stored@),
    decreases n,
{
    if n > 0 {
        let (before, after, reply) = (states[n - 1], states[n], replies[n - 1]);
        lemma_tombstone_before_removal(queue, there, states, replies, n - 1);
        assert(drain_leads(states[n - 1], replies[n - 1], states[n - 1 + 1]));
        reveal(drain_leads);
        lemma_next_delete_skips_none(before.pending@, before.now);
        let old_blobs = condemned_blobs(states, replies, n - 1);
        let blobs = condemned_blobs(states, replies, n);
        match after.step {
            TombstoneStep::RemoveEntry { job } => {
                if before.step == after.step {
                    if old_blobs.contains(job.stored@) {
                        let b = old_blobs.index_of(job.stored@);
                        assert(blobs[b] == job.stored@);
                    }
                } else if before.step is WriteTombstone {
                    assert(blobs[old_blobs.len() as int] == job.stored@);
                }
            },
            _ => {},
        }
    }
}

/// A pass fails only on an operation that failed, or where an upload stands among the
/// deletions; whatever else is answered, it goes on.
pub proof fn law_drain_goes_on_unless_an_operation_failed(
    before: TombstoneDrain,
    reply: TombstoneReply,
    after: TombstoneDrain,
)
    requires
        before.follows(reply, after),
        !(before.step is Done) && !(before.step is Failed),
    ensures
        match (before.step, reply) {
            (TombstoneStep::ReadTombstone { job }, TombstoneReply::Read(read)) => {
                &&& after.step is RecordFailure == read is Failed
                &&& after.step is RecordFailure || (after.step matches TombstoneStep::RemoveEntry {
                    job: same,
                } && same == job) || (after.step matches TombstoneStep::WriteTombstone {
                    job: same,
                    ..
                } && same == job)
            },
            (TombstoneStep::WriteTombstone { job, .. }, TombstoneReply::Written(written)) => {
                match written {
                    Ok(_) => after.step == (TombstoneStep::RemoveEntry { job }),
                    Err(_) => after.step matches TombstoneStep::RecordFailure { job: same, .. }
                        && same == job,
                }
            },
            (TombstoneStep::RemoveEntry { .. }, TombstoneReply::Local(removed)) => {
                &&& removed is Err ==> after.step is Failed
                &&& removed is Ok && holds_only_deletes(before.pending@) ==> after.step is Done
                    || after.step is ReadTombstone
                &&& removed is Ok && after.step is Failed ==> meets_an_upload(
                    before.pending@,
                    before.now,
                    after.step->Failed_error,
                )
            },
            (TombstoneStep::RecordFailure { .. }, TombstoneReply::Local(_)) => after.step is Failed,
            _ => after == before,
        },
{
    lemma_next_delete_skips_none(before.pending@, before.now);
    if holds_only_deletes(before.pending@) {
        assert forall|error: TombstoneDrainError| !meets_an_upload(
            before.pending@,
            before.now,
            error,
        ) by {
            if meets_an_upload(before.pending@, before.now, error) {
                let k = choose|k: int|
                    0 <= k < before.pending@.len() && (
                    #[trigger] before.pending@[k]).operation is Upload;
                assert(before.pending@[k].operation is Delete);
            }
        }
    }
}

/// A failed attempt is recorded with its own entry, at the time of the pass, under the
/// object's key and with what the operation said; and once it is recorded, the pass fails
/// with the same error.
pub proof fn law_failed_delete_is_recorded_as_it_failed(
    before: TombstoneDrain,
    reply: TombstoneReply,
    after: TombstoneDrain,
)
    requires
        before.follows(reply, after),
        before.step != after.step,
    ensures
        after.step matches TombstoneStep::RecordFailure { job, error, attempted_at } ==> {
            &&& attempted_at == before.now_text
            &&& before.step matches TombstoneStep::ReadTombstone { job: asked } ==> job == asked && (
            reply matches TombstoneReply::Read(TombstoneRead::Failed(said)) && error == (
            TombstoneDrainError::Validation {
                cloud_key: job.stored.object.logical_key,
                detail: said,
            }))
            &&& before.step matches TombstoneStep::WriteTombstone { job: asked, .. } ==> job == asked
                && (reply matches TombstoneReply::Written(Err(fault)) && (
            error matches TombstoneDrainError::Write { cloud_key, detail } && cloud_key
                == job.stored.object.logical_key && detail@ == (match fault {
                TombstoneWriteError::Serialize(said) => "tombstone serialization failed: "@ + said@,
                TombstoneWriteError::Rotation(said) => said@,
                TombstoneWriteError::Write(said) => "tombstone write failed: "@ + said@,
            })))
            &&& before.step is ReadTombstone || before.step is WriteTombstone
        },
        before.step matches TombstoneStep::RecordFailure { job, error, .. } ==> (
        reply matches TombstoneReply::Local(recorded) && after.step == (TombstoneStep::Failed {
            error: match recorded {
                Ok(_) => error,
                Err(detail) => TombstoneDrainError::Record {
                    cloud_key: job.stored.object.logical_key,
                    id: job.id,
                    detail,
                },
            },
        })),
        before.step matches TombstoneStep::RemoveEntry { job } ==> (
        reply matches TombstoneReply::Local(Err(detail)) ==> after.step == (TombstoneStep::Failed {
            error: TombstoneDrainError::Remove { id: job.id, detail },
        })),
{
    lemma_next_delete_skips_none(before.pending@, before.now);
}

} // verus!
