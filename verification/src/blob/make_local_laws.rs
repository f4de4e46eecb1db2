//! What making a root local comes to as a whole.

use vstd::prelude::*;

use crate::blob::make_local::{
    all_files, bad_dest, dest_of, is_make_local_run, is_published, law_make_local_is_durable_before_it_deletes, make_local_leads,
    restamp_from, user_files, DestPath, MakeLocal, MakeLocalErrorView, MakeLocalReply, MakeLocalStep, PublishReply,
    WrittenFile,
};
use crate::blob::Provenance;
use crate::outbox::{RowBlobAuthority, RowBlobRef};
use crate::store_dir::{first_fault, local_path_text, texts, token_fault};

verus! {

/// What it means that an operation succeeded, for the row it is about.
pub open spec fn is_good(at: MakeLocal, reply: MakeLocalReply) -> bool {
    match (at.step, reply) {
        (MakeLocalStep::PrepareParent { .. }, MakeLocalReply::Local(done)) => done is Ok,
        (MakeLocalStep::Stage { .. }, MakeLocalReply::Local(done)) => done is Ok,
        (MakeLocalStep::Publish { .. }, MakeLocalReply::Published(done)) => done is Published,
        (MakeLocalStep::MeasureExisting { .. }, MakeLocalReply::Facts(Ok((size, hash)))) => {
            at.homes@.len() < at.rows@.len() && size == at.rows@[at.homes@.len() as int].plaintext_size
                && hash == at.rows@[at.homes@.len() as int].plaintext_hash
        },
        (MakeLocalStep::MeasureLength { .. }, MakeLocalReply::Length(Ok(length))) => {
            at.homes@.len() < at.rows@.len() && length == at.rows@[at.homes@.len() as int].plaintext_size
        },
        (MakeLocalStep::SyncParent { .. }, MakeLocalReply::Local(done)) => done is Ok,
        (MakeLocalStep::RecheckRows, MakeLocalReply::Rows(Ok(rows))) => rows@.len() == at.rows@.len()
            && forall|i: int| 0 <= i < rows@.len() ==> (#[trigger] rows@[i])@ == at.rows@[i]@,
        (MakeLocalStep::FlipGate, MakeLocalReply::Db(done)) => done is Ok,
        (MakeLocalStep::Restamp { .. }, MakeLocalReply::Updated(Ok(count))) => count == 1,
        (MakeLocalStep::RegisterExternal { .. }, MakeLocalReply::Db(done)) => done is Ok,
        (MakeLocalStep::EnqueueDelete { .. }, MakeLocalReply::Db(done)) => done is Ok,
        (MakeLocalStep::CommitWrite, MakeLocalReply::Db(done)) => done is Ok,
        _ => false,
    }
}

/// Whether this operation succeeded in the first `n` operations of a run, when `k` of these
/// rows were back.
#[verifier::opaque]
pub open spec fn happened(
    states: Seq<MakeLocal>,
    replies: Seq<MakeLocalReply>,
    n: int,
    rows: Seq<RowBlobRef>,
    k: int,
    step: MakeLocalStep,
) -> bool {
    exists|i: int|
        {
            &&& 0 <= i < n
            &&& (#[trigger] states[i]).step == step
            &&& states[i].rows@ == rows
            &&& states[i].homes@.len() == k
            &&& is_good(states[i], replies[i])
        }
}

/// Where the file of a row belongs: at the path that the user chose first for its blob, or
/// at the blob's place in the local store.
pub open spec fn is_home(transition: MakeLocal, row: RowBlobRef, path: String) -> bool {
    match row.blob.provenance {
        Provenance::UserProvided => exists|d: int|
            {
                &&& 0 <= d < transition.dest@.len()
                &&& (#[trigger] transition.dest@[d]).0@ == row.blob.id@
                &&& transition.dest@[d].1 == DestPath::Utf8(path)
                &&& forall|e: int| 0 <= e < d ==> (#[trigger] transition.dest@[e]).0@ != row.blob.id@
            },
        Provenance::HostProvided => path@ == local_path_text(
            transition.store_dir@,
            row.blob.namespace@,
            row.blob.id@,
        ),
    }
}

/// The blob of row `k` is back: its plaintext was staged beside the path where it belongs,
/// published there or, in the local store, found there with the row's own size and hash,
/// measured to have the row's size, and its folder entry made durable.
pub open spec fn is_back_at(
    states: Seq<MakeLocal>,
    replies: Seq<MakeLocalReply>,
    n: int,
    rows: Seq<RowBlobRef>,
    k: int,
    path: String,
) -> bool {
    &&& is_home(states[0], rows[k], path)
    &&& happened(states, replies, n, rows, k, MakeLocalStep::Stage { path })
    &&& happened(states, replies, n, rows, k, MakeLocalStep::Publish { path }) || (
    rows[k].blob.provenance is HostProvided && happened(
        states,
        replies,
        n,
        rows,
        k,
        MakeLocalStep::MeasureExisting { path },
    ))
    &&& happened(states, replies, n, rows, k, MakeLocalStep::MeasureLength { path })
    &&& happened(states, replies, n, rows, k, MakeLocalStep::SyncParent { path })
}

/// The blob of row `k` is back somewhere, and the path is kept exactly where it is the
/// user's.
pub open spec fn is_back(
    states: Seq<MakeLocal>,
    replies: Seq<MakeLocalReply>,
    n: int,
    rows: Seq<RowBlobRef>,
    k: int,
    home: Option<String>,
) -> bool {
    exists|path: String|
        {
            &&& #[trigger] is_back_at(states, replies, n, rows, k, path)
            &&& home == (match rows[k].blob.provenance {
                Provenance::UserProvided => Some(path),
                Provenance::HostProvided => None,
            })
        }
}

/// The row as the write leaves it is still the same row with the same blob, under the
/// write's stamp, local and without an object.
pub open spec fn is_left_local(remote: RowBlobRef, local: RowBlobRef, stamp: Seq<char>) -> bool {
    &&& local.table@ == remote.table@ && local.row_id@ == remote.row_id@ && local.column@
        == remote.column@
    &&& local.row_stamp@ == stamp
    &&& local.blob@ == remote.blob@ && local.plaintext_size == remote.plaintext_size
        && local.plaintext_hash == remote.plaintext_hash
    &&& local.authority == RowBlobAuthority::Local && local.stored is None
}

/// The write has given row `k` its stamp, unless the row is the root itself.
pub open spec fn is_restamped(
    states: Seq<MakeLocal>,
    replies: Seq<MakeLocalReply>,
    n: int,
    at: MakeLocal,
    k: int,
) -> bool {
    (at.rows@[k].table@ == at.root_table@ && at.rows@[k].row_id@ == at.root_id@) || happened(
        states,
        replies,
        n,
        at.rows@,
        at.rows@.len() as int,
        MakeLocalStep::Restamp { row: k as usize },
    )
}

/// The write has registered the user's file of row `k`, where it is the user's.
pub open spec fn is_registered(
    states: Seq<MakeLocal>,
    replies: Seq<MakeLocalReply>,
    n: int,
    at: MakeLocal,
    k: int,
) -> bool {
    at.rows@[k].blob.provenance is UserProvided ==> happened(
        states,
        replies,
        n,
        at.rows@,
        at.rows@.len() as int,
        MakeLocalStep::RegisterExternal { row: k as usize },
    )
}

/// The write has queued the deletion of row `k`'s cloud object.
pub open spec fn is_condemned(
    states: Seq<MakeLocal>,
    replies: Seq<MakeLocalReply>,
    n: int,
    at: MakeLocal,
    k: int,
) -> bool {
    happened(
        states,
        replies,
        n,
        at.rows@,
        at.rows@.len() as int,
        MakeLocalStep::EnqueueDelete { row: k as usize },
    )
}

/// The rows below `k` are done with: checked, registered and condemned.
spec fn rows_done(
    states: Seq<MakeLocal>,
    replies: Seq<MakeLocalReply>,
    n: int,
    at: MakeLocal,
    k: int,
) -> bool {
    forall|j: int|
        #![trigger at.rows@[j]]
        0 <= j < k && j < at.rows@.len() ==> is_left_local(at.rows@[j], at.local@[j], at.stamp@)
            && is_registered(states, replies, n, at, j) && is_condemned(states, replies, n, at, j)
}

/// The rows below `k` have the write's stamp.
spec fn rows_restamped(
    states: Seq<MakeLocal>,
    replies: Seq<MakeLocalReply>,
    n: int,
    at: MakeLocal,
    k: int,
) -> bool {
    forall|j: int|
        #![trigger at.rows@[j]]
        0 <= j < k && j < at.rows@.len() ==> is_restamped(states, replies, n, at, j)
}

/// Everything of a transition that no reply changes.
pub open spec fn same_transition(a: MakeLocal, b: MakeLocal) -> bool {
    &&& b.store_dir == a.store_dir
    &&& b.root_table == a.root_table
    &&& b.root_id == a.root_id
    &&& b.gate_column == a.gate_column
    &&& b.dest == a.dest
}

/// The write has begun: the rows were read again and found unchanged.
spec fn rechecked(
    states: Seq<MakeLocal>,
    replies: Seq<MakeLocalReply>,
    n: int,
    at: MakeLocal,
) -> bool {
    happened(states, replies, n, at.rows@, at.rows@.len() as int, MakeLocalStep::RecheckRows)
}

/// And its gate is off.
spec fn flipped(
    states: Seq<MakeLocal>,
    replies: Seq<MakeLocalReply>,
    n: int,
    at: MakeLocal,
) -> bool {
    rechecked(states, replies, n, at) && happened(
        states,
        replies,
        n,
        at.rows@,
        at.rows@.len() as int,
        MakeLocalStep::FlipGate,
    )
}

/// What a transition has behind it at each step.
spec fn has_behind_it(states: Seq<MakeLocal>, replies: Seq<MakeLocalReply>, n: int) -> bool {
    let now = states[n];
    let count = now.rows@.len() as int;
    let k = now.homes@.len() as int;
    &&& same_transition(states[0], now)
    &&& now.in_order()
    &&& (forall|i: int|
        #![trigger now.homes@[i]]
        0 <= i < now.homes@.len() ==> is_back(states, replies, n, now.rows@, i, now.homes@[i]))
    &&& match now.step {
        MakeLocalStep::PrepareParent { path } => is_home(states[0], now.rows@[k], path),
        MakeLocalStep::Stage { path } => is_home(states[0], now.rows@[k], path),
        MakeLocalStep::Publish { path } => is_home(states[0], now.rows@[k], path) && happened(
            states,
            replies,
            n,
            now.rows@,
            k,
            MakeLocalStep::Stage { path },
        ),
        MakeLocalStep::MeasureExisting { path } => is_home(states[0], now.rows@[k], path)
            && happened(states, replies, n, now.rows@, k, MakeLocalStep::Stage { path })
            && now.rows@[k].blob.provenance is HostProvided,
        MakeLocalStep::MeasureLength { path } => is_home(states[0], now.rows@[k], path) && happened(
            states,
            replies,
            n,
            now.rows@,
            k,
            MakeLocalStep::Stage { path },
        ) && (happened(states, replies, n, now.rows@, k, MakeLocalStep::Publish { path }) || (
        now.rows@[k].blob.provenance is HostProvided && happened(
            states,
            replies,
            n,
            now.rows@,
            k,
            MakeLocalStep::MeasureExisting { path },
        ))),
        MakeLocalStep::SyncParent { path } => is_home(states[0], now.rows@[k], path) && happened(
            states,
            replies,
            n,
            now.rows@,
            k,
            MakeLocalStep::Stage { path },
        ) && (happened(states, replies, n, now.rows@, k, MakeLocalStep::Publish { path }) || (
        now.rows@[k].blob.provenance is HostProvided && happened(
            states,
            replies,
            n,
            now.rows@,
            k,
            MakeLocalStep::MeasureExisting { path },
        ))) && happened(states, replies, n, now.rows@, k, MakeLocalStep::MeasureLength { path }),
        MakeLocalStep::FlipGate => rechecked(states, replies, n, now),
        MakeLocalStep::Restamp { row } => flipped(states, replies, n, now) && rows_restamped(
            states,
            replies,
            n,
            now,
            row as int,
        ) && row < count,
        MakeLocalStep::RereadRows => flipped(states, replies, n, now) && rows_restamped(
            states,
            replies,
            n,
            now,
            count,
        ),
        MakeLocalStep::RegisterExternal { row } => in_the_write(states, replies, n, row as int) && row
            < count && is_left_local(now.rows@[row as int], now.local@[row as int], now.stamp@),
        MakeLocalStep::EnqueueDelete { row } => in_the_write(states, replies, n, row as int) && row
            < count && is_left_local(now.rows@[row as int], now.local@[row as int], now.stamp@)
            && is_registered(states, replies, n, now, row as int),
        MakeLocalStep::CommitWrite => in_the_write(states, replies, n, count),
        MakeLocalStep::NotifyMadeLocal => in_the_write(states, replies, n, count) && happened(
            states,
            replies,
            n,
            now.rows@,
            count,
            MakeLocalStep::CommitWrite,
        ),
        MakeLocalStep::Done => in_the_write(states, replies, n, count) && happened(
            states,
            replies,
            n,
            now.rows@,
            count,
            MakeLocalStep::CommitWrite,
        ),
        _ => true,
    }
}

/// The write has its rows restamped and read again, and those below `k` done with.
spec fn in_the_write(states: Seq<MakeLocal>, replies: Seq<MakeLocalReply>, n: int, k: int) -> bool {
    let now = states[n];
    &&& flipped(states, replies, n, now)
    &&& now.local@.len() == now.rows@.len()
    &&& rows_restamped(states, replies, n, now, now.rows@.len() as int)
    &&& rows_done(states, replies, n, now, k)
}

proof fn lemma_happened_stays(states: Seq<MakeLocal>, replies: Seq<MakeLocalReply>, n: int)
    ensures
        forall|rows: Seq<RowBlobRef>, k: int, step: MakeLocalStep|
            happened(states, replies, n, rows, k, step) ==> #[trigger] happened(
                states,
                replies,
                n + 1,
                rows,
                k,
                step,
            ),
        0 <= n && is_good(states[n], replies[n]) ==> happened(
            states,
            replies,
            n + 1,
            states[n].rows@,
            states[n].homes@.len() as int,
            states[n].step,
        ),
{
    reveal(happened);
    assert forall|rows: Seq<RowBlobRef>, k: int, step: MakeLocalStep|
        happened(states, replies, n, rows, k, step) implies #[trigger] happened(
        states,
        replies,
        n + 1,
        rows,
        k,
        step,
    ) by {
        let i = choose|i: int|
            {
                &&& 0 <= i < n
                &&& (#[trigger] states[i]).step == step
                &&& states[i].rows@ == rows
                &&& states[i].homes@.len() == k
                &&& is_good(states[i], replies[i])
            };
        assert(states[i].step == step);
    }
    if 0 <= n && is_good(states[n], replies[n]) {
        assert(states[n].step == states[n].step);
    }
}

proof fn lemma_back_stays(
    states: Seq<MakeLocal>,
    replies: Seq<MakeLocalReply>,
    n: int,
    rows: Seq<RowBlobRef>,
)
    ensures
        forall|k: int, home: Option<String>|
            is_back(states, replies, n, rows, k, home) ==> #[trigger] is_back(
                states,
                replies,
                n + 1,
                rows,
                k,
                home,
            ),
{
    lemma_happened_stays(states, replies, n);
    assert forall|k: int, home: Option<String>| is_back(states, replies, n, rows, k, home) implies #[trigger] is_back(
        states,
        replies,
        n + 1,
        rows,
        k,
        home,
    ) by {
        let path = choose|path: String|
            {
                &&& #[trigger] is_back_at(states, replies, n, rows, k, path)
                &&& home == (match rows[k].blob.provenance {
                    Provenance::UserProvided => Some(path),
                    Provenance::HostProvided => None,
                })
            };
        assert(is_back_at(states, replies, n + 1, rows, k, path));
    }
}

proof fn lemma_dest_of(dest: Seq<(String, DestPath)>, id: Seq<char>)
    ensures
        dest_of(dest, id) matches Some(found) ==> exists|d: int|
            {
                &&& 0 <= d < dest.len()
                &&& (#[trigger] dest[d]).0@ == id
                &&& dest[d].1 == found
                &&& forall|e: int| 0 <= e < d ==> (#[trigger] dest[e]).0@ != id
            },
    decreases dest.len(),
{
    if dest.len() > 0 {
        if dest[0].0@ == id {
            assert(dest[0].1 == dest_of(dest, id)->0);
        } else {
            let rest = dest.skip(1);
            lemma_dest_of(rest, id);
            if dest_of(dest, id) is Some {
                let d = choose|d: int|
                    {
                        &&& 0 <= d < rest.len()
                        &&& (#[trigger] rest[d]).0@ == id
                        &&& rest[d].1 == dest_of(dest, id)->0
                        &&& forall|e: int| 0 <= e < d ==> (#[trigger] rest[e]).0@ != id
                    };
                assert(dest[d + 1] == rest[d]);
                assert forall|e: int| 0 <= e < d + 1 implies (#[trigger] dest[e]).0@ != id by {
                    if e > 0 {
                        assert(dest[e] == rest[e - 1]);
                    }
                }
            }
        }
    }
}

proof fn lemma_restamp_from_skips_the_root(
    rows: Seq<RowBlobRef>,
    root_table: Seq<char>,
    root_id: Seq<char>,
    from: int,
)
    requires
        0 <= from <= rows.len(),
    ensures
        from <= restamp_from(rows, root_table, root_id, from) <= rows.len(),
        forall|j: int|
            from <= j < restamp_from(rows, root_table, root_id, from) ==> (#[trigger] rows[j]).table@
                == root_table && rows[j].row_id@ == root_id,
    decreases rows.len() - from,
{
    if from < rows.len() && rows[from].table@ == root_table && rows[from].row_id@ == root_id {
        lemma_restamp_from_skips_the_root(rows, root_table, root_id, from + 1);
    }
}

/// Bringing rows back.
#[verifier::rlimit(40)]
proof fn lemma_behind_rows(states: Seq<MakeLocal>, replies: Seq<MakeLocalReply>, n: int)
    requires
        0 <= n,
        states[n].follows(replies[n], states[n + 1]),
        has_behind_it(states, replies, n),
        states[n + 1].in_order(),
        !states[n].writing() && !(states[n].step is NotifyMadeLocal) && !(states[n].step is Done),
    ensures
        has_behind_it(states, replies, n + 1),
{
    let (before, reply, after) = (states[n], replies[n], states[n + 1]);
    lemma_happened_stays(states, replies, n);
    lemma_back_stays(states, replies, n, before.rows@);
    let k = before.homes@.len() as int;
    match before.step {
        MakeLocalStep::CheckCancel => {
            if k < before.rows@.len() {
                lemma_dest_of(before.dest@, before.rows@[k].blob.id@);
            }
        },
        MakeLocalStep::SyncParent { path } => {
            if after.homes@.len() > before.homes@.len() {
                assert(is_back_at(states, replies, n + 1, before.rows@, k, path));
                assert(is_back(states, replies, n + 1, after.rows@, k, after.homes@[k]));
                assert forall|i: int|
                    #![trigger after.homes@[i]]
                    0 <= i < after.homes@.len() implies is_back(
                    states,
                    replies,
                    n + 1,
                    after.rows@,
                    i,
                    after.homes@[i],
                ) by {
                    if i < k {
                        assert(after.homes@[i] == before.homes@[i]);
                    }
                }
            }
        },
        _ => {},
    }
}

proof fn lemma_write_stays(
    states: Seq<MakeLocal>,
    replies: Seq<MakeLocalReply>,
    n: int,
    k: int,
)
    requires
        states[n + 1].rows == states[n].rows,
        states[n + 1].local == states[n].local,
        states[n + 1].stamp == states[n].stamp,
        same_transition(states[n], states[n + 1]),
    ensures
        flipped(states, replies, n, states[n]) ==> flipped(states, replies, n + 1, states[n + 1]),
        rechecked(states, replies, n, states[n]) ==> rechecked(states, replies, n + 1, states[n + 1]),
        rows_restamped(states, replies, n, states[n], k) ==> rows_restamped(
            states,
            replies,
            n + 1,
            states[n + 1],
            k,
        ),
        rows_done(states, replies, n, states[n], k) ==> rows_done(
            states,
            replies,
            n + 1,
            states[n + 1],
            k,
        ),
{
    lemma_happened_stays(states, replies, n);
}

/// What is back stays back where the rows and the homes stay.
proof fn lemma_homes_stay(states: Seq<MakeLocal>, replies: Seq<MakeLocalReply>, n: int)
    requires
        0 <= n,
        has_behind_it(states, replies, n),
        states[n + 1].rows == states[n].rows,
        states[n + 1].homes == states[n].homes,
    ensures
        forall|i: int|
            #![trigger states[n + 1].homes@[i]]
            0 <= i < states[n + 1].homes@.len() ==> is_back(
                states,
                replies,
                n + 1,
                states[n + 1].rows@,
                i,
                states[n + 1].homes@[i],
            ),
{
    let (before, after) = (states[n], states[n + 1]);
    lemma_back_stays(states, replies, n, before.rows@);
    assert forall|i: int|
        #![trigger after.homes@[i]]
        0 <= i < after.homes@.len() implies is_back(
        states,
        replies,
        n + 1,
        after.rows@,
        i,
        after.homes@[i],
    ) by {
        assert(after.homes@[i] == before.homes@[i]);
    }
}

/// Its gate.
#[verifier::rlimit(40)]
proof fn lemma_behind_flip(states: Seq<MakeLocal>, replies: Seq<MakeLocalReply>, n: int)
    requires
        0 <= n,
        states[n].follows(replies[n], states[n + 1]),
        has_behind_it(states, replies, n),
        states[n + 1].in_order(),
        states[n].step is FlipGate,
    ensures
        has_behind_it(states, replies, n + 1),
{
    let (before, reply, after) = (states[n], replies[n], states[n + 1]);
    let count = before.rows@.len() as int;
    assert(before.rows@.len() == before.rows.len());
    lemma_happened_stays(states, replies, n);
    lemma_homes_stay(states, replies, n);
    lemma_write_stays(states, replies, n, 0);
    lemma_restamp_from_skips_the_root(before.rows@, before.root_table@, before.root_id@, 0);
    if is_good(before, reply) {
        let to = restamp_from(before.rows@, before.root_table@, before.root_id@, 0);
        assert forall|j: int|
            #![trigger after.rows@[j]]
            0 <= j < to && j < count implies is_restamped(states, replies, n + 1, after, j) by {
            assert(before.rows@[j].table@ == before.root_table@);
        }
        assert(flipped(states, replies, n + 1, after));
    }
}

/// A row gets its stamp.
#[verifier::rlimit(40)]
proof fn lemma_behind_restamp(states: Seq<MakeLocal>, replies: Seq<MakeLocalReply>, n: int)
    requires
        0 <= n,
        states[n].follows(replies[n], states[n + 1]),
        has_behind_it(states, replies, n),
        states[n + 1].in_order(),
        states[n].step is Restamp,
    ensures
        has_behind_it(states, replies, n + 1),
{
    let (before, reply, after) = (states[n], replies[n], states[n + 1]);
    let count = before.rows@.len() as int;
    assert(before.rows@.len() == before.rows.len());
    lemma_happened_stays(states, replies, n);
    lemma_homes_stay(states, replies, n);
    let row = states[n].step->Restamp_row;
    lemma_write_stays(states, replies, n, row as int);
    lemma_write_stays(states, replies, n, count);
    lemma_restamp_from_skips_the_root(
        before.rows@,
        before.root_table@,
        before.root_id@,
        row + 1,
    );
    if is_good(before, reply) {
        let to = restamp_from(
            before.rows@,
            before.root_table@,
            before.root_id@,
            row + 1,
        );
        assert forall|j: int|
            #![trigger after.rows@[j]]
            0 <= j < to && j < count implies is_restamped(states, replies, n + 1, after, j) by {
            if j < row {
                assert(is_restamped(states, replies, n, before, j));
            } else if j == row {
                assert(happened(
                    states,
                    replies,
                    n + 1,
                    before.rows@,
                    before.homes@.len() as int,
                    MakeLocalStep::Restamp { row },
                ));
            }
        }
    }
}

/// The rows are read again.
#[verifier::rlimit(40)]
proof fn lemma_behind_reread(states: Seq<MakeLocal>, replies: Seq<MakeLocalReply>, n: int)
    requires
        0 <= n,
        states[n].follows(replies[n], states[n + 1]),
        has_behind_it(states, replies, n),
        states[n + 1].in_order(),
        states[n].step is RereadRows,
    ensures
        has_behind_it(states, replies, n + 1),
{
    let (before, reply, after) = (states[n], replies[n], states[n + 1]);
    let count = before.rows@.len() as int;
    assert(before.rows@.len() == before.rows.len());
    lemma_happened_stays(states, replies, n);
    lemma_homes_stay(states, replies, n);
    if after.step is RegisterExternal || after.step is EnqueueDelete || after.step
        is CommitWrite {
        assert(after.rows == before.rows);
        assert forall|j: int|
            #![trigger after.rows@[j]]
            0 <= j < count implies is_restamped(states, replies, n + 1, after, j) by {
            assert(is_restamped(states, replies, n, before, j));
        }
        if count > 0 {
            lemma_home_tells_provenance(states, replies, n, 0);
        }
    } else if after.step == before.step {
        lemma_write_stays(states, replies, n, count);
    }
}

/// A user's file is registered.
#[verifier::rlimit(40)]
proof fn lemma_behind_register(states: Seq<MakeLocal>, replies: Seq<MakeLocalReply>, n: int)
    requires
        0 <= n,
        states[n].follows(replies[n], states[n + 1]),
        has_behind_it(states, replies, n),
        states[n + 1].in_order(),
        states[n].step is RegisterExternal,
    ensures
        has_behind_it(states, replies, n + 1),
{
    let (before, reply, after) = (states[n], replies[n], states[n + 1]);
    let count = before.rows@.len() as int;
    assert(before.rows@.len() == before.rows.len());
    lemma_happened_stays(states, replies, n);
    lemma_homes_stay(states, replies, n);
    let row = states[n].step->RegisterExternal_row;
    lemma_write_stays(states, replies, n, row as int);
    lemma_write_stays(states, replies, n, count);
}

/// A cloud object is queued for deletion.
#[verifier::rlimit(40)]
proof fn lemma_behind_enqueue(states: Seq<MakeLocal>, replies: Seq<MakeLocalReply>, n: int)
    requires
        0 <= n,
        states[n].follows(replies[n], states[n + 1]),
        has_behind_it(states, replies, n),
        states[n + 1].in_order(),
        states[n].step is EnqueueDelete,
    ensures
        has_behind_it(states, replies, n + 1),
{
    let (before, reply, after) = (states[n], replies[n], states[n + 1]);
    let count = before.rows@.len() as int;
    assert(before.rows@.len() == before.rows.len());
    lemma_happened_stays(states, replies, n);
    lemma_homes_stay(states, replies, n);
    let row = states[n].step->EnqueueDelete_row;
    lemma_write_stays(states, replies, n, row as int);
    lemma_write_stays(states, replies, n, count);
    if is_good(before, reply) {
        assert forall|j: int|
            #![trigger after.rows@[j]]
            0 <= j < row + 1 && j < count implies is_left_local(
            after.rows@[j],
            after.local@[j],
            after.stamp@,
        ) && is_registered(states, replies, n + 1, after, j) && is_condemned(
            states,
            replies,
            n + 1,
            after,
            j,
        ) by {
            if j < row {
                assert(is_left_local(before.rows@[j], before.local@[j], before.stamp@));
            }
        }
        if row + 1 < count {
            lemma_home_tells_provenance(states, replies, n, row + 1);
        }
    }
}

/// The commit, and what follows it.
proof fn lemma_behind_end(states: Seq<MakeLocal>, replies: Seq<MakeLocalReply>, n: int)
    requires
        0 <= n,
        states[n].follows(replies[n], states[n + 1]),
        has_behind_it(states, replies, n),
        states[n + 1].in_order(),
        states[n].step is RecheckRows || states[n].step is CommitWrite || states[n].step is NotifyMadeLocal
            || states[n].step is Done,
    ensures
        has_behind_it(states, replies, n + 1),
{
    let (before, reply, after) = (states[n], replies[n], states[n + 1]);
    let count = before.rows@.len() as int;
    assert(before.rows@.len() == before.rows.len());
    lemma_happened_stays(states, replies, n);
    lemma_homes_stay(states, replies, n);
    lemma_write_stays(states, replies, n, count);
}

/// A row's path is kept exactly where its blob is the user's.
proof fn lemma_home_tells_provenance(
    states: Seq<MakeLocal>,
    replies: Seq<MakeLocalReply>,
    n: int,
    k: int,
)
    requires
        has_behind_it(states, replies, n),
        0 <= k < states[n].homes@.len(),
    ensures
        states[n].homes@[k] is Some == (states[n].rows@[k].blob.provenance is UserProvided),
{
    assert(is_back(states, replies, n, states[n].rows@, k, states[n].homes@[k]));
}

proof fn lemma_behind_run(states: Seq<MakeLocal>, replies: Seq<MakeLocalReply>, n: int)
    requires
        is_make_local_run(states, replies),
        0 <= n < states.len(),
    ensures
        has_behind_it(states, replies, n),
    decreases n,
{
    law_make_local_is_durable_before_it_deletes(states, replies, n);
    if n > 0 {
        lemma_behind_run(states, replies, n - 1);
        assert(make_local_leads(states[n - 1], replies[n - 1], states[n - 1 + 1]));
        reveal(make_local_leads);
        let before = states[n - 1];
        match before.step {
            MakeLocalStep::FlipGate => lemma_behind_flip(states, replies, n - 1),
            MakeLocalStep::Restamp { .. } => lemma_behind_restamp(states, replies, n - 1),
            MakeLocalStep::RereadRows => lemma_behind_reread(states, replies, n - 1),
            MakeLocalStep::RegisterExternal { .. } => lemma_behind_register(states, replies, n - 1),
            MakeLocalStep::EnqueueDelete { .. } => lemma_behind_enqueue(states, replies, n - 1),
            MakeLocalStep::RecheckRows
            | MakeLocalStep::CommitWrite
            | MakeLocalStep::NotifyMadeLocal
            | MakeLocalStep::Done => lemma_behind_end(states, replies, n - 1),
            _ => lemma_behind_rows(states, replies, n - 1),
        }
    }
}

/// Whatever the operations reply: a transition comes to its commit only when it is through
/// with every row. The rows were found unchanged and its gate was turned off. Every row's
/// blob is back where it belongs, and durable. Every row but the root was restamped, was
/// read again and is the same row with the same blob, local under the write's stamp. Every
/// user's file is registered, and every row's cloud object is queued for deletion.
pub proof fn law_commit_comes_after_every_row(
    states: Seq<MakeLocal>,
    replies: Seq<MakeLocalReply>,
    n: int,
    k: int,
)
    requires
        is_make_local_run(states, replies),
        0 <= n < states.len(),
        states[n].step is CommitWrite || states[n].step is NotifyMadeLocal || states[n].step is Done,
        0 <= k < states[n].rows@.len(),
    ensures
        ({
            let now = states[n];
            let count = now.rows@.len() as int;
            &&& same_transition(states[0], now)
            &&& now.homes@.len() == count && now.local@.len() == count
            &&& happened(states, replies, n, now.rows@, count, MakeLocalStep::RecheckRows)
            &&& happened(states, replies, n, now.rows@, count, MakeLocalStep::FlipGate)
            &&& is_back(states, replies, n, now.rows@, k, now.homes@[k])
            &&& is_restamped(states, replies, n, now, k)
            &&& is_left_local(now.rows@[k], now.local@[k], now.stamp@)
            &&& is_registered(states, replies, n, now, k)
            &&& is_condemned(states, replies, n, now, k)
        }),
{
    lemma_behind_run(states, replies, n);
    assert(states[n].rows@[k] == states[n].rows@[k]);
    assert(states[n].homes@[k] == states[n].homes@[k]);
}

/// A root is told to be local, and the transition is done, only after the commit succeeded.
pub proof fn law_done_means_committed(
    states: Seq<MakeLocal>,
    replies: Seq<MakeLocalReply>,
    n: int,
)
    requires
        is_make_local_run(states, replies),
        0 <= n < states.len(),
        states[n].step is NotifyMadeLocal || states[n].step is Done,
    ensures
        happened(
            states,
            replies,
            n,
            states[n].rows@,
            states[n].rows@.len() as int,
            MakeLocalStep::CommitWrite,
        ),
{
    lemma_behind_run(states, replies, n);
}

/// The error that a transition fails with, at once or after it has removed files.
pub open spec fn error_at_hand(step: MakeLocalStep) -> Option<MakeLocalErrorView> {
    match step {
        MakeLocalStep::Failed { error } => Some(error@),
        MakeLocalStep::RollBack { error, .. } => Some(error@),
        _ => None,
    }
}

/// The error of a file of the row at hand that could not be written.
pub open spec fn write_fault(at: MakeLocal, path: Seq<char>, detail: Seq<char>) -> MakeLocalErrorView {
    MakeLocalErrorView::Write {
        blob_id: at.rows@[at.homes@.len() as int].blob.id@,
        path,
        detail,
    }
}

/// Whether the transition fails because the file of the row at hand is not right.
pub open spec fn is_write_fault(before: MakeLocal, after: MakeLocal, path: Seq<char>) -> bool {
    error_at_hand(after.step) matches Some(error) && (error matches MakeLocalErrorView::Write {
        blob_id,
        path: named,
        ..
    } && blob_id == before.rows@[before.homes@.len() as int].blob.id@ && named == path)
}

/// Whether the transition fails with this error; in the write, where files of the user's
/// stay, they are reported with the error's words.
pub open spec fn fails_with(before: MakeLocal, after: MakeLocal, error: MakeLocalErrorView) -> bool {
    let kept = user_files(before.written@);
    error_at_hand(after.step) == Some(
        if before.writing() && kept.len() > 0 {
            MakeLocalErrorView::PartialMaterialization {
                retained_paths: kept.map_values(|path: String| path@),
                detail: error.message_text(),
            }
        } else {
            error
        },
    )
}

/// A transition fails exactly where something is in its way, and says what: the root is not
/// remote, a row is not, a destination cannot be used or is taken, the user cancelled, an
/// operation failed, or a file or a row turned out to be another than it should be. Whatever
/// else is answered, it goes on.
#[verifier::rlimit(30)]
pub proof fn law_make_local_goes_on_unless_something_is_in_its_way(
    before: MakeLocal,
    reply: MakeLocalReply,
    after: MakeLocal,
)
    requires
        before.follows(reply, after),
        before.in_order(),
    ensures
        match (before.step, reply) {
            (MakeLocalStep::ReadLocality, MakeLocalReply::Locality(locality)) => match locality {
                Ok(Some(true)) => after.step is ReadRows,
                Ok(Some(false)) => fails_with(
                    before,
                    after,
                    MakeLocalErrorView::AlreadyLocal(before.root_table@, before.root_id@),
                ),
                Ok(None) => fails_with(
                    before,
                    after,
                    MakeLocalErrorView::UnresolvedLocality(before.root_table@, before.root_id@),
                ),
                Err(error) => fails_with(before, after, MakeLocalErrorView::Db(error@)),
            },
            (MakeLocalStep::ReadRows, MakeLocalReply::Rows(Err(error))) => fails_with(
                before,
                after,
                MakeLocalErrorView::Db(error@),
            ),
            (MakeLocalStep::ReadRows, MakeLocalReply::Rows(Ok(rows))) => {
                &&& after.rows == rows && after.homes@.len() == 0
                &&& (forall|i: int|
                    0 <= i < rows@.len() ==> (#[trigger] rows@[i]).authority is Remote
                        && rows@[i].stored is Some) && (forall|d: int|
                    0 <= d < before.dest@.len() ==> (#[trigger] before.dest@[d]).1 is Utf8)
                    ==> error_at_hand(after.step) is None
                &&& (forall|i: int|
                    0 <= i < rows@.len() ==> (#[trigger] rows@[i]).authority is Remote
                        && rows@[i].stored is Some) && (exists|d: int|
                    0 <= d < before.dest@.len() && !((#[trigger] before.dest@[d]).1 is Utf8)) ==> (
                error_at_hand(after.step) matches Some(error) && error is NonUtf8Dest)
                &&& (exists|i: int|
                    0 <= i < rows@.len() && !((#[trigger] rows@[i]).authority is Remote
                        && rows@[i].stored is Some)) ==> fails_with(
                    before,
                    after,
                    MakeLocalErrorView::UnresolvedLocality(before.root_table@, before.root_id@),
                )
            },
            (MakeLocalStep::CheckCancel, MakeLocalReply::Cancelled(cancelled)) => {
                &&& cancelled ==> fails_with(before, after, MakeLocalErrorView::Cancelled)
                &&& !cancelled ==> after.step != before.step && error_at_hand(after.step)
                    != Some(MakeLocalErrorView::Cancelled)
            },
            (MakeLocalStep::CheckCancelLast, MakeLocalReply::Cancelled(cancelled)) => if cancelled {
                fails_with(before, after, MakeLocalErrorView::Cancelled)
            } else {
                after.step is TakeStamp
            },
            (MakeLocalStep::PrepareParent { path }, MakeLocalReply::Local(done)) => match done {
                Ok(_) => after.step == (MakeLocalStep::Stage { path }),
                Err(detail) => fails_with(before, after, write_fault(before, path@, detail@)),
            },
            (MakeLocalStep::Stage { path }, MakeLocalReply::Local(done)) => match done {
                Ok(_) => after.step == (MakeLocalStep::Publish { path }),
                Err(detail) => fails_with(
                    before,
                    after,
                    MakeLocalErrorView::Read(
                        before.rows@[before.homes@.len() as int].blob.id@,
                        detail@,
                    ),
                ),
            },
            (MakeLocalStep::Publish { path }, MakeLocalReply::Published(done)) => match done {
                PublishReply::Published => after.step == (MakeLocalStep::MeasureLength { path }),
                PublishReply::DestinationExists(detail) => {
                    let users = before.rows@[before.homes@.len() as int].blob.provenance is UserProvided;
                    let own = exists|w: int|
                        0 <= w < before.written@.len() && ((
                        #[trigger] before.written@[w]) matches WrittenFile::User(written) && written@
                            == path@);
                    &&& !users ==> after.step == (MakeLocalStep::MeasureExisting { path })
                    &&& users && !own ==> fails_with(
                        before,
                        after,
                        write_fault(before, path@, detail@),
                    )
                    &&& users && own ==> error_at_hand(after.step) == Some(
                        MakeLocalErrorView::PartialMaterialization {
                            retained_paths: user_files(before.written@).map_values(
                                |path: String| path@,
                            ),
                            detail: write_fault(before, path@, detail@).message_text(),
                        },
                    )
                },
                PublishReply::Failed(detail) => fails_with(
                    before,
                    after,
                    write_fault(before, path@, detail@),
                ),
            },
            (MakeLocalStep::MeasureExisting { path }, MakeLocalReply::Facts(_)) => if is_good(
                before,
                reply,
            ) {
                after.step == (MakeLocalStep::MeasureLength { path })
            } else {
                is_write_fault(before, after, path@)
            },
            (MakeLocalStep::MeasureLength { path }, MakeLocalReply::Length(_)) => if is_good(
                before,
                reply,
            ) {
                after.step == (MakeLocalStep::SyncParent { path })
            } else {
                is_write_fault(before, after, path@)
            },
            (MakeLocalStep::SyncParent { path }, MakeLocalReply::Local(done)) => match done {
                Ok(_) => {
                    &&& after.homes@.len() == before.homes@.len() + 1
                    &&& after.step matches MakeLocalStep::NotifyProgress { done, total } && done
                        == after.homes@.len() && total == after.rows@.len()
                },
                Err(detail) => fails_with(before, after, write_fault(before, path@, detail@)),
            },
            (MakeLocalStep::NotifyProgress { .. }, MakeLocalReply::Done) => if before.homes@.len()
                < before.rows@.len() {
                after.step is CheckCancel
            } else {
                after.step is CheckCancelLast
            },
            (MakeLocalStep::TakeStamp, MakeLocalReply::Stamp(stamp)) => after.step is RecheckRows
                && after.stamp == stamp,
            (MakeLocalStep::RecheckRows, MakeLocalReply::Rows(rows)) => {
                &&& after.step is FlipGate == is_good(before, reply)
                &&& !is_good(before, reply) ==> error_at_hand(after.step) is Some
                &&& rows matches Err(error) ==> fails_with(before, after, MakeLocalErrorView::Db(error@))
            },
            (MakeLocalStep::FlipGate, MakeLocalReply::Db(done)) => match done {
                Ok(_) => error_at_hand(after.step) is None && after.step != before.step,
                Err(error) => fails_with(before, after, MakeLocalErrorView::Db(error@)),
            },
            (MakeLocalStep::Restamp { row }, MakeLocalReply::Updated(updated)) if row
                < before.rows@.len() => {
                &&& (error_at_hand(after.step) is Some) == !is_good(before, reply)
                &&& updated matches Err(error) ==> fails_with(
                    before,
                    after,
                    MakeLocalErrorView::Db(error@),
                )
            },
            (MakeLocalStep::RereadRows, MakeLocalReply::Rows(rows)) => {
                &&& rows matches Err(error) ==> fails_with(before, after, MakeLocalErrorView::Db(error@))
                &&& rows matches Ok(read) ==> after.local == read && (read@.len() == before.rows@.len()
                    && (forall|i: int|
                    0 <= i < read@.len() ==> is_left_local(
                        before.rows@[i],
                        #[trigger] read@[i],
                        before.stamp@,
                    )) ==> error_at_hand(after.step) is None)
            },
            (MakeLocalStep::RegisterExternal { row }, MakeLocalReply::Db(done)) => match done {
                Ok(_) => after.step == (MakeLocalStep::EnqueueDelete { row }),
                Err(error) => fails_with(before, after, MakeLocalErrorView::Db(error@)),
            },
            (MakeLocalStep::EnqueueDelete { .. }, MakeLocalReply::Db(done)) => match done {
                Ok(_) => (forall|i: int|
                    0 <= i < before.local@.len() && i < before.rows@.len() ==> is_left_local(
                        before.rows@[i],
                        #[trigger] before.local@[i],
                        before.stamp@,
                    )) ==> error_at_hand(after.step) is None,
                Err(error) => fails_with(before, after, MakeLocalErrorView::Db(error@)),
            },
            (MakeLocalStep::CommitWrite, MakeLocalReply::Db(done)) => match done {
                Ok(_) => after.step is NotifyMadeLocal,
                Err(error) => fails_with(before, after, MakeLocalErrorView::Db(error@)),
            },
            (MakeLocalStep::NotifyMadeLocal, MakeLocalReply::Done) => after.step is Done,
            (MakeLocalStep::RollBack { error, .. }, MakeLocalReply::Local(Ok(_))) => error_at_hand(
                after.step,
            ) == Some(error@),
            (MakeLocalStep::RollBack { .. }, MakeLocalReply::Local(Err(_))) => after.step is Failed,
            _ => after == before,
        },
{
    assert(before.rows@.len() == before.rows.len());
    if before.step is ReadRows {
        lemma_bad_dest(before.dest@);
    }
    match (before.step, reply) {
        (MakeLocalStep::RereadRows, MakeLocalReply::Rows(Ok(read))) => {
            if read@.len() > 0 && read@.len() == before.rows@.len() {
                assert(read@[0] == read@[0]);
            }
        },
        (MakeLocalStep::EnqueueDelete { row }, MakeLocalReply::Db(Ok(_))) => {
            if row + 1 < before.local@.len() {
                assert(before.local@[row + 1] == before.local@[row + 1]);
            }
        },
        _ => {},
    }
    assert(texts(user_files(before.written@)) =~= user_files(before.written@).map_values(
        |path: String| path@,
    ));
    assert(all_files(before.written@).len() == before.written@.len());
    if let (MakeLocalStep::Publish { path }, MakeLocalReply::Published(_)) = (before.step, reply) {
        lemma_is_published(before.written@, path@);
    }
}

/// A path of the user's was published exactly where it is among the user's files.
proof fn lemma_is_published(written: Seq<WrittenFile>, path: Seq<char>)
    ensures
        is_published(written, path) == exists|w: int|
            0 <= w < written.len() && ((#[trigger] written[w]) matches WrittenFile::User(found)
                && found@ == path),
        is_published(written, path) ==> user_files(written).len() > 0,
    decreases written.len(),
{
    if is_published(written, path) {
        let w = choose|w: int|
            0 <= w < written.len() && (#[trigger] written[w]) is User && written[w].path()@ == path;
        assert(written[w] matches WrittenFile::User(found) && found@ == path);
        if w < written.len() - 1 {
            let earlier = written.drop_last();
            assert(earlier[w] is User && earlier[w].path()@ == path);
            assert(is_published(earlier, path));
            lemma_is_published(earlier, path);
        }
    }
    if exists|w: int|
        0 <= w < written.len() && ((#[trigger] written[w]) matches WrittenFile::User(found) && found@
            == path) {
        let w = choose|w: int|
            0 <= w < written.len() && ((#[trigger] written[w]) matches WrittenFile::User(found)
                && found@ == path);
        assert(written[w] is User && written[w].path()@ == path);
    }
}

proof fn lemma_bad_dest(dest: Seq<(String, DestPath)>)
    ensures
        bad_dest(dest) is None == (forall|d: int|
            0 <= d < dest.len() ==> (#[trigger] dest[d]).1 is Utf8),
        bad_dest(dest) matches Some(error) ==> error is NonUtf8Dest,
    decreases dest.len(),
{
    if dest.len() > 0 {
        let rest = dest.skip(1);
        lemma_bad_dest(rest);
        assert(forall|d: int| 0 <= d < rest.len() ==> #[trigger] rest[d] == dest[d + 1]);
        assert(dest[0].1 is Utf8 || dest[0].1 is NotUtf8);
        if dest[0].1 is Utf8 {
            if forall|d: int| 0 <= d < rest.len() ==> (#[trigger] rest[d]).1 is Utf8 {
                assert forall|d: int| 0 <= d < dest.len() implies (#[trigger] dest[d]).1 is Utf8 by {
                    if d > 0 {
                        assert(rest[d - 1].1 is Utf8);
                    }
                }
            }
            if forall|d: int| 0 <= d < dest.len() ==> (#[trigger] dest[d]).1 is Utf8 {
                assert forall|d: int| 0 <= d < rest.len() implies (#[trigger] rest[d]).1 is Utf8 by {
                    assert(dest[d + 1].1 is Utf8);
                }
            }
        }
    }
}

/// A row that can be brought back is brought home: to the path that the user chose for its
/// blob, or to its place in the local store.
pub proof fn law_next_row_is_brought_home(before: MakeLocal, after: MakeLocal, path: String)
    requires
        before.follows(MakeLocalReply::Cancelled(false), after),
        before.step is CheckCancel,
        before.in_order(),
        before.rows@[before.homes@.len() as int].stored is Some,
    ensures
        ({
            let row = before.rows@[before.homes@.len() as int];
            &&& row.blob.provenance is UserProvided && is_home(before, row, path) ==> after.step == (
            MakeLocalStep::PrepareParent { path })
            &&& row.blob.provenance is UserProvided && (forall|d: int|
                0 <= d < before.dest@.len() ==> (#[trigger] before.dest@[d]).0@ != row.blob.id@)
                ==> fails_with(before, after, MakeLocalErrorView::MissingDest(row.blob.id@))
            &&& row.blob.provenance is HostProvided && token_fault(row.blob.namespace@) is None
                && token_fault(row.blob.id@) is None ==> (after.step matches MakeLocalStep::Stage {
                path: home,
            } && home@ == local_path_text(
                before.store_dir@,
                row.blob.namespace@,
                row.blob.id@,
            ))
        }),
{
    let row = before.rows@[before.homes@.len() as int];
    lemma_dest_of(before.dest@, row.blob.id@);
    lemma_dest_is_found(before.dest@, row.blob.id@);
    if row.blob.provenance is UserProvided && is_home(before, row, path) {
        let d = choose|d: int|
            {
                &&& 0 <= d < before.dest@.len()
                &&& (#[trigger] before.dest@[d]).0@ == row.blob.id@
                &&& before.dest@[d].1 == DestPath::Utf8(path)
                &&& forall|e: int| 0 <= e < d ==> (#[trigger] before.dest@[e]).0@ != row.blob.id@
            };
        assert(before.dest@[d].0@ == row.blob.id@);
        let found = dest_of(before.dest@, row.blob.id@)->0;
        let f = choose|f: int|
            {
                &&& 0 <= f < before.dest@.len()
                &&& (#[trigger] before.dest@[f]).0@ == row.blob.id@
                &&& before.dest@[f].1 == found
                &&& forall|e: int| 0 <= e < f ==> (#[trigger] before.dest@[e]).0@ != row.blob.id@
            };
        assert(d == f);
    }
    let parts = seq![row.blob.namespace@, row.blob.id@];
    assert(parts.drop_last().drop_last() =~= Seq::<Seq<char>>::empty());
    assert(parts.drop_last() =~= seq![row.blob.namespace@]);
    assert(first_fault(parts.drop_last().drop_last()) is None);
    assert(first_fault(parts.drop_last()) == token_fault(row.blob.namespace@));
    assert(all_files(before.written@).len() == before.written@.len());
}

proof fn lemma_dest_is_found(dest: Seq<(String, DestPath)>, id: Seq<char>)
    ensures
        dest_of(dest, id) is None == (forall|d: int|
            0 <= d < dest.len() ==> (#[trigger] dest[d]).0@ != id),
    decreases dest.len(),
{
    if dest.len() > 0 {
        let rest = dest.skip(1);
        lemma_dest_is_found(rest, id);
        assert(forall|d: int| 0 <= d < rest.len() ==> #[trigger] rest[d] == dest[d + 1]);
        if dest[0].0@ != id {
            if forall|d: int| 0 <= d < rest.len() ==> (#[trigger] rest[d]).0@ != id {
                assert forall|d: int| 0 <= d < dest.len() implies (#[trigger] dest[d]).0@ != id by {
                    if d > 0 {
                        assert(rest[d - 1].0@ != id);
                    }
                }
            }
            if forall|d: int| 0 <= d < dest.len() ==> (#[trigger] dest[d]).0@ != id {
                assert forall|d: int| 0 <= d < rest.len() implies (#[trigger] rest[d]).0@ != id by {
                    assert(dest[d + 1].0@ != id);
                }
            }
        }
    }
}

/// The published files are listed one by one, in the order they were published.
pub proof fn law_every_published_file_is_listed(written: Seq<WrittenFile>, k: int)
    requires
        0 <= k < written.len(),
    ensures
        all_files(written).len() == written.len(),
        all_files(written)[k] == (match written[k] {
            WrittenFile::User(path) => path,
            WrittenFile::LocalStore(path) => path,
        }),
{
}

} // verus!
