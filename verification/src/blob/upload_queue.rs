//! How the uploads of a root come into the queue.
//!
//! A row is queued once. Where its upload is queued already, asking again writes the new
//! source and the new choice of pinning into that entry; else a new entry is queued.

use vstd::prelude::*;

use crate::outbox::{OutboxEntry, OutboxOperation, RowBlobRef};

verus! {

/// Where a row's blob stands: its table, its row and its column.
pub open spec fn place(row: RowBlobRef) -> (Seq<char>, Seq<char>, Seq<char>) {
    (row.table@, row.row_id@, row.column@)
}

/// Rows stand at one place exactly where table, row and column are the same.
pub proof fn law_what_a_place_is(a: RowBlobRef, b: RowBlobRef)
    ensures
        place(a) == place(b) <==> a.table@ == b.table@ && a.row_id@ == b.row_id@ && a.column@
            == b.column@,
{
}

/// Whether an entry uploads the blob at this row's place.
pub open spec fn uploads(entry: OutboxEntry, row: RowBlobRef) -> bool {
    match entry.operation {
        OutboxOperation::Upload { row: queued, .. } => place(queued) == place(row),
        OutboxOperation::Delete { .. } => false,
    }
}

/// The entry that uploads the blob of this row, where one is queued.
pub open spec fn queued_upload(queue: Seq<OutboxEntry>, row: RowBlobRef) -> Option<i64>
    decreases queue.len(),
{
    if queue.len() == 0 {
        None
    } else if uploads(queue[0], row) {
        Some(queue[0].id)
    } else {
        queued_upload(queue.skip(1), row)
    }
}

/// Into which entry each row's upload is written; `None` stands for a new one.
pub open spec fn upload_writes(queue: Seq<OutboxEntry>, rows: Seq<RowBlobRef>) -> Seq<Option<i64>> {
    rows.map_values(|row: RowBlobRef| queued_upload(queue, row))
}

fn uploads_row(entry: &OutboxEntry, row: &RowBlobRef) -> (same: bool)
    ensures
        same == uploads(*entry, *row),
{
    match &entry.operation {
        OutboxOperation::Upload { row: queued, .. } => queued.table == row.table && queued.row_id
            == row.row_id && queued.column == row.column,
        OutboxOperation::Delete { .. } => false,
    }
}

fn find_upload(queue: &Vec<OutboxEntry>, row: &RowBlobRef) -> (entry: Option<i64>)
    ensures
        entry == queued_upload(queue@, *row),
{
    let mut i: usize = 0;
    assert(queue@.skip(0) =~= queue@);
    while i < queue.len()
        invariant
            i <= queue.len(),
            queued_upload(queue@, *row) == queued_upload(queue@.skip(i as int), *row),
        decreases queue.len() - i,
    {
        assert(queue@.skip(i as int)[0] == queue@[i as int]);
        assert(queue@.skip(i as int).skip(1) =~= queue@.skip(i + 1));
        if uploads_row(&queue[i], row) {
            return Some(queue[i].id);
        }
        i = i + 1;
    }
    None
}

/// Decides into which entry each row's upload is written.
pub fn plan_uploads(queue: &Vec<OutboxEntry>, rows: &Vec<RowBlobRef>) -> (writes: Vec<Option<i64>>)
    ensures
        writes@ == upload_writes(queue@, rows@),
{
    let mut writes: Vec<Option<i64>> = Vec::new();
    let mut i: usize = 0;
    while i < rows.len()
        invariant
            i <= rows.len(),
            writes@ == upload_writes(queue@, rows@.take(i as int)),
        decreases rows.len() - i,
    {
        writes.push(find_upload(queue, &rows[i]));
        i = i + 1;
        assert(writes@ =~= upload_writes(queue@, rows@.take(i as int)));
    }
    assert(rows@.take(i as int) =~= rows@);
    writes
}

/// An entry with the row, the source and the pinning of another upload. What it is called
/// and how far it has come stay.
pub open spec fn rewritten(entry: OutboxEntry, upload: OutboxEntry) -> OutboxEntry {
    match (entry.operation, upload.operation) {
        (
            OutboxOperation::Upload { root_table, root_id, state, .. },
            OutboxOperation::Upload { row, source_path, retain_pinned, .. },
        ) => OutboxEntry {
            operation: OutboxOperation::Upload {
                root_table,
                root_id,
                row,
                source_path,
                retain_pinned,
                state,
            },
            ..entry
        },
        _ => entry,
    }
}

/// The queue once an upload was written into this entry, or as a new one.
pub open spec fn after_write(
    queue: Seq<OutboxEntry>,
    write: Option<i64>,
    upload: OutboxEntry,
) -> Seq<OutboxEntry> {
    match write {
        None => queue.push(upload),
        Some(id) => queue.map_values(
            |entry: OutboxEntry|
                if entry.id == id {
                    rewritten(entry, upload)
                } else {
                    entry
                },
        ),
    }
}

/// The queue once all of these uploads were written, one after the other.
pub open spec fn after_writes(
    queue: Seq<OutboxEntry>,
    writes: Seq<Option<i64>>,
    uploads: Seq<OutboxEntry>,
) -> Seq<OutboxEntry>
    decreases writes.len(),
{
    if writes.len() == 0 {
        queue
    } else {
        after_write(
            after_writes(queue, writes.drop_last(), uploads.drop_last()),
            writes.last(),
            uploads.last(),
        )
    }
}

/// An entry that uploads this row from this source, pinned or not.
pub open spec fn is_upload_of(
    entry: OutboxEntry,
    row: RowBlobRef,
    source: String,
    pin: bool,
) -> bool {
    match entry.operation {
        OutboxOperation::Upload { row: queued, source_path, retain_pinned, .. } => queued == row
            && source_path == source && retain_pinned == pin,
        OutboxOperation::Delete { .. } => false,
    }
}

/// Entries have their own ids, and no row is uploaded by two of them.
pub open spec fn is_queue(queue: Seq<OutboxEntry>) -> bool {
    &&& forall|i: int, j: int|
        0 <= i < j < queue.len() ==> (#[trigger] queue[i]).id != (#[trigger] queue[j]).id
    &&& forall|i: int, j: int|
        0 <= i < j < queue.len() && queue[i].operation is Upload && queue[j].operation is Upload
            ==> place((#[trigger] queue[i]).operation->row) != place(
            (#[trigger] queue[j]).operation->row,
        )
}

/// No two rows stand at one place.
pub open spec fn are_rows(rows: Seq<RowBlobRef>) -> bool {
    forall|i: int, j: int|
        0 <= i < j < rows.len() ==> place(#[trigger] rows[i]) != place(#[trigger] rows[j])
}

/// The entries that a call asks for: one for each row, with its source and the call's
/// choice of pinning. Where one is new, its id is in nobody's use.
pub open spec fn are_uploads(
    queue: Seq<OutboxEntry>,
    rows: Seq<RowBlobRef>,
    sources: Seq<String>,
    pin: bool,
    asked: Seq<OutboxEntry>,
) -> bool {
    &&& sources.len() == rows.len()
    &&& asked.len() == rows.len()
    &&& forall|i: int|
        0 <= i < rows.len() ==> is_upload_of(#[trigger] asked[i], rows[i], sources[i], pin)
    &&& forall|i: int, j: int|
        0 <= i < j < asked.len() ==> (#[trigger] asked[i]).id != (#[trigger] asked[j]).id
    &&& forall|i: int, k: int|
        0 <= i < asked.len() && 0 <= k < queue.len() ==> (#[trigger] asked[i]).id != (
        #[trigger] queue[k]).id
}

/// Exactly one entry uploads this row, and it has this source and this choice of pinning.
pub open spec fn is_queued_once(
    queue: Seq<OutboxEntry>,
    row: RowBlobRef,
    source: String,
    pin: bool,
) -> bool {
    exists|k: int|
        0 <= k < queue.len() && is_upload_of(#[trigger] queue[k], row, source, pin) && (forall|m: int|
            0 <= m < queue.len() && m != k ==> !uploads(#[trigger] queue[m], row))
}

proof fn lemma_queued_upload(queue: Seq<OutboxEntry>, row: RowBlobRef)
    ensures
        match queued_upload(queue, row) {
            Some(id) => exists|k: int|
                0 <= k < queue.len() && (#[trigger] queue[k]).id == id && uploads(queue[k], row),
            None => forall|k: int| 0 <= k < queue.len() ==> !uploads(#[trigger] queue[k], row),
        },
    decreases queue.len(),
{
    if queue.len() > 0 {
        let rest = queue.skip(1);
        lemma_queued_upload(rest, row);
        if uploads(queue[0], row) {
            assert(queue[0].id == queued_upload(queue, row)->0);
        } else {
            match queued_upload(queue, row) {
                Some(id) => {
                    let k = choose|k: int|
                        0 <= k < rest.len() && (#[trigger] rest[k]).id == id && uploads(rest[k], row);
                    assert(queue[k + 1] == rest[k]);
                },
                None => {
                    assert forall|k: int| 0 <= k < queue.len() implies !uploads(
                        #[trigger] queue[k],
                        row,
                    ) by {
                        if k > 0 {
                            assert(rest[k - 1] == queue[k]);
                        }
                    }
                },
            }
        }
    }
}

/// A new entry, for one of the first rows, whose upload was not queued.
spec fn is_new(
    queue: Seq<OutboxEntry>,
    rows: Seq<RowBlobRef>,
    asked: Seq<OutboxEntry>,
    n: int,
    entry: OutboxEntry,
) -> bool {
    exists|i: int| 0 <= i < n && entry == #[trigger] asked[i] && queued_upload(queue, rows[i]) is None
}

/// Some entry uploads this row, with this source and this choice of pinning.
spec fn holds_upload(queue: Seq<OutboxEntry>, row: RowBlobRef, source: String, pin: bool) -> bool {
    exists|k: int| 0 <= k < queue.len() && is_upload_of(#[trigger] queue[k], row, source, pin)
}

/// What holds of the queue once the uploads of the first rows were written.
spec fn partly_written(
    queue: Seq<OutboxEntry>,
    rows: Seq<RowBlobRef>,
    sources: Seq<String>,
    pin: bool,
    asked: Seq<OutboxEntry>,
    n: int,
    now: Seq<OutboxEntry>,
) -> bool {
    &&& now.len() >= queue.len()
    &&& forall|k: int|
        0 <= k < queue.len() ==> (#[trigger] now[k]).id == queue[k].id && now[k].operation is Upload
            == queue[k].operation is Upload && (queue[k].operation is Upload ==> place(
            now[k].operation->row,
        ) == place(queue[k].operation->row))
    &&& forall|k: int|
        0 <= k < queue.len() && (forall|i: int|
            0 <= i < n ==> !uploads(queue[k], #[trigger] rows[i])) ==> #[trigger] now[k] == queue[k]
    &&& forall|k: int|
        queue.len() <= k < now.len() ==> is_new(queue, rows, asked, n, #[trigger] now[k])
    &&& forall|k: int, m: int|
        queue.len() <= k < m < now.len() ==> (#[trigger] now[k]).id != (#[trigger] now[m]).id
    &&& forall|i: int| 0 <= i < n ==> holds_upload(now, #[trigger] rows[i], sources[i], pin)
}

proof fn lemma_write_one(
    queue: Seq<OutboxEntry>,
    rows: Seq<RowBlobRef>,
    sources: Seq<String>,
    pin: bool,
    asked: Seq<OutboxEntry>,
    n: int,
    now: Seq<OutboxEntry>,
)
    requires
        is_queue(queue),
        are_rows(rows),
        are_uploads(queue, rows, sources, pin, asked),
        0 <= n < rows.len(),
        partly_written(queue, rows, sources, pin, asked, n, now),
    ensures
        partly_written(
            queue,
            rows,
            sources,
            pin,
            asked,
            n + 1,
            after_write(now, queued_upload(queue, rows[n]), asked[n]),
        ),
{
    let write = queued_upload(queue, rows[n]);
    let next = after_write(now, write, asked[n]);
    lemma_queued_upload(queue, rows[n]);
    assert(is_upload_of(asked[n], rows[n], sources[n], pin));
    match write {
        None => {
            assert(next[now.len() as int] == asked[n]);
            assert forall|k: int| queue.len() <= k < next.len() implies is_new(
                queue,
                rows,
                asked,
                n + 1,
                #[trigger] next[k],
            ) by {
                if k < now.len() {
                    assert(next[k] == now[k] && is_new(queue, rows, asked, n, now[k]));
                    let i = choose|i: int|
                        0 <= i < n && now[k] == #[trigger] asked[i] && queued_upload(queue, rows[i]) is None;
                    assert(next[k] == asked[i]);
                } else {
                    assert(next[k] == asked[n]);
                }
            }
            assert forall|k: int, m: int| queue.len() <= k < m < next.len() implies (
            #[trigger] next[k]).id != (#[trigger] next[m]).id by {
                assert(next[k] == now[k]);
                if m < now.len() {
                    assert(next[m] == now[m]);
                } else {
                    let i = choose|i: int|
                        0 <= i < n && now[k] == #[trigger] asked[i] && queued_upload(queue, rows[i]) is None;
                    assert(asked[i].id != asked[n].id);
                }
            }
            assert forall|i: int| 0 <= i < n + 1 implies holds_upload(
                next,
                #[trigger] rows[i],
                sources[i],
                pin,
            ) by {
                if i < n {
                    assert(holds_upload(now, rows[i], sources[i], pin));
                    let k = choose|k: int|
                        0 <= k < now.len() && is_upload_of(
                            #[trigger] now[k],
                            rows[i],
                            sources[i],
                            pin,
                        );
                    assert(next[k] == now[k]);
                } else {
                    assert(is_upload_of(next[now.len() as int], rows[n], sources[n], pin));
                }
            }
            assert forall|k: int| 0 <= k < now.len() implies #[trigger] next[k] == now[k] by {}
            assert forall|k: int| 0 <= k < queue.len() implies (#[trigger] next[k]).id == queue[k].id
                && next[k].operation is Upload == queue[k].operation is Upload && (
            queue[k].operation is Upload ==> place(next[k].operation->row) == place(
                queue[k].operation->row,
            )) by {
                assert(next[k] == now[k]);
            }
            assert forall|k: int|
                0 <= k < queue.len() && (forall|i: int|
                    0 <= i < n + 1 ==> !uploads(queue[k], #[trigger] rows[i])) implies #[trigger] next[k]
                == queue[k] by {
                assert(next[k] == now[k]);
            }
        },
        Some(id) => {
            let at = choose|k: int|
                0 <= k < queue.len() && (#[trigger] queue[k]).id == id && uploads(queue[k], rows[n]);
            assert(now[at].id == id);
            assert forall|k: int| 0 <= k < now.len() && k != at implies #[trigger] next[k] == now[k] by {
                if k < queue.len() {
                    assert(now[k].id == queue[k].id);
                    assert(queue[k].id != queue[at].id);
                } else {
                    let i = choose|i: int|
                        0 <= i < n && now[k] == #[trigger] asked[i] && queued_upload(queue, rows[i]) is None;
                    assert(asked[i].id != queue[at].id);
                }
            }
            assert(next[at] == rewritten(now[at], asked[n]));
            assert(is_upload_of(next[at], rows[n], sources[n], pin));
            assert forall|k: int| queue.len() <= k < next.len() implies is_new(
                queue,
                rows,
                asked,
                n + 1,
                #[trigger] next[k],
            ) by {
                assert(next[k] == now[k]);
                let i = choose|i: int|
                    0 <= i < n && now[k] == #[trigger] asked[i] && queued_upload(queue, rows[i]) is None;
                assert(next[k] == asked[i]);
            }
            assert forall|i: int| 0 <= i < n + 1 implies holds_upload(
                next,
                #[trigger] rows[i],
                sources[i],
                pin,
            ) by {
                if i < n {
                    assert(holds_upload(now, rows[i], sources[i], pin));
                    let k = choose|k: int|
                        0 <= k < now.len() && is_upload_of(
                            #[trigger] now[k],
                            rows[i],
                            sources[i],
                            pin,
                        );
                    if k == at {
                        assert(place(now[at].operation->row) == place(queue[at].operation->row));
                        assert(place(rows[i]) != place(rows[n]));
                    }
                    assert(next[k] == now[k]);
                }
            }
            assert forall|k: int|
                0 <= k < queue.len() && (forall|i: int|
                    0 <= i < n + 1 ==> !uploads(queue[k], #[trigger] rows[i])) implies #[trigger] next[k]
                == queue[k] by {
                assert(!uploads(queue[k], rows[n]));
                assert(next[k] == now[k]);
            }
            assert forall|k: int, m: int| queue.len() <= k < m < next.len() implies (
            #[trigger] next[k]).id != (#[trigger] next[m]).id by {
                assert(next[k] == now[k] && next[m] == now[m]);
            }
        },
    }
}

proof fn lemma_write_all(
    queue: Seq<OutboxEntry>,
    rows: Seq<RowBlobRef>,
    sources: Seq<String>,
    pin: bool,
    asked: Seq<OutboxEntry>,
    n: int,
)
    requires
        is_queue(queue),
        are_rows(rows),
        are_uploads(queue, rows, sources, pin, asked),
        0 <= n <= rows.len(),
    ensures
        partly_written(
            queue,
            rows,
            sources,
            pin,
            asked,
            n,
            after_writes(queue, upload_writes(queue, rows).take(n), asked.take(n)),
        ),
    decreases n,
{
    let writes = upload_writes(queue, rows);
    if n > 0 {
        lemma_write_all(queue, rows, sources, pin, asked, n - 1);
        assert(writes.take(n).drop_last() =~= writes.take(n - 1));
        assert(asked.take(n).drop_last() =~= asked.take(n - 1));
        lemma_write_one(
            queue,
            rows,
            sources,
            pin,
            asked,
            n - 1,
            after_writes(queue, writes.take(n - 1), asked.take(n - 1)),
        );
    }
}

/// Queueing a root's rows leaves exactly one upload for each of them, with the source and
/// the pinning of this call, whether or not an upload of it was queued before. The uploads
/// of other rows stay as they were.
pub proof fn law_each_row_is_queued_once(
    queue: Seq<OutboxEntry>,
    rows: Seq<RowBlobRef>,
    sources: Seq<String>,
    pin: bool,
    asked: Seq<OutboxEntry>,
)
    requires
        is_queue(queue),
        are_rows(rows),
        are_uploads(queue, rows, sources, pin, asked),
    ensures
        ({
            let after = after_writes(queue, upload_writes(queue, rows), asked);
            &&& is_queue(after)
            &&& forall|i: int|
                0 <= i < rows.len() ==> is_queued_once(after, #[trigger] rows[i], sources[i], pin)
            &&& forall|k: int|
                0 <= k < queue.len() && (forall|i: int|
                    0 <= i < rows.len() ==> !uploads(queue[k], #[trigger] rows[i]))
                    ==> #[trigger] after[k] == queue[k]
        }),
{
    let writes = upload_writes(queue, rows);
    let after = after_writes(queue, writes, asked);
    lemma_write_all(queue, rows, sources, pin, asked, rows.len() as int);
    assert(writes.take(rows.len() as int) =~= writes);
    assert(asked.take(rows.len() as int) =~= asked);
    assert forall|k: int, m: int| 0 <= k < m < after.len() implies (#[trigger] after[k]).id != (
    #[trigger] after[m]).id by {
        if m < queue.len() {
            assert(queue[k].id != queue[m].id);
        } else if k < queue.len() {
            let i = choose|i: int|
                0 <= i < rows.len() && after[m] == #[trigger] asked[i] && queued_upload(
                    queue,
                    rows[i],
                ) is None;
            assert(asked[i].id != queue[k].id);
        }
    }
    assert forall|k: int, m: int|
        0 <= k < m < after.len() && after[k].operation is Upload && after[m].operation is Upload implies place(
        (#[trigger] after[k]).operation->row,
    ) != place((#[trigger] after[m]).operation->row) by {
        if m < queue.len() {
            assert(place(queue[k].operation->row) != place(queue[m].operation->row));
        } else {
            let i = choose|i: int|
                0 <= i < rows.len() && after[m] == #[trigger] asked[i] && queued_upload(
                    queue,
                    rows[i],
                ) is None;
            assert(is_upload_of(asked[i], rows[i], sources[i], pin));
            lemma_queued_upload(queue, rows[i]);
            if k < queue.len() {
                assert(!uploads(queue[k], rows[i]));
            } else {
                let j = choose|j: int|
                    0 <= j < rows.len() && after[k] == #[trigger] asked[j] && queued_upload(
                        queue,
                        rows[j],
                    ) is None;
                assert(is_upload_of(asked[j], rows[j], sources[j], pin));
                assert(after[k].id != after[m].id);
                assert(i != j);
                if i < j {
                    assert(place(rows[i]) != place(rows[j]));
                } else {
                    assert(place(rows[j]) != place(rows[i]));
                }
            }
        }
    }
    assert forall|i: int| 0 <= i < rows.len() implies is_queued_once(
        after,
        #[trigger] rows[i],
        sources[i],
        pin,
    ) by {
        let k = choose|k: int|
            0 <= k < after.len() && is_upload_of(#[trigger] after[k], rows[i], sources[i], pin);
        assert forall|m: int| 0 <= m < after.len() && m != k implies !uploads(
            #[trigger] after[m],
            rows[i],
        ) by {
            if after[m].operation is Upload {
                if m < k {
                    assert(place(after[m].operation->row) != place(after[k].operation->row));
                } else {
                    assert(place(after[k].operation->row) != place(after[m].operation->row));
                }
            }
        }
    }
}

/// Asking again before the uploads are through queues nothing new: the second call's
/// source and pinning are written into the uploads of the first, one for each row.
pub proof fn law_asking_again_rewrites_the_uploads(
    queue: Seq<OutboxEntry>,
    rows: Seq<RowBlobRef>,
    sources: Seq<String>,
    pin: bool,
    asked: Seq<OutboxEntry>,
    new_sources: Seq<String>,
    new_pin: bool,
    asked_again: Seq<OutboxEntry>,
)
    requires
        is_queue(queue),
        are_rows(rows),
        are_uploads(queue, rows, sources, pin, asked),
        are_uploads(
            after_writes(queue, upload_writes(queue, rows), asked),
            rows,
            new_sources,
            new_pin,
            asked_again,
        ),
    ensures
        ({
            let once = after_writes(queue, upload_writes(queue, rows), asked);
            let twice = after_writes(once, upload_writes(once, rows), asked_again);
            &&& twice.len() == once.len()
            &&& is_queue(twice)
            &&& forall|i: int|
                0 <= i < rows.len() ==> upload_writes(once, rows)[i] is Some && is_queued_once(
                    twice,
                    #[trigger] rows[i],
                    new_sources[i],
                    new_pin,
                )
        }),
{
    let once = after_writes(queue, upload_writes(queue, rows), asked);
    law_each_row_is_queued_once(queue, rows, sources, pin, asked);
    law_each_row_is_queued_once(once, rows, new_sources, new_pin, asked_again);
    let writes = upload_writes(once, rows);
    assert forall|i: int| 0 <= i < rows.len() implies (#[trigger] writes[i]) is Some by {
        assert(is_queued_once(once, rows[i], sources[i], pin));
        let k = choose|k: int|
            0 <= k < once.len() && is_upload_of(#[trigger] once[k], rows[i], sources[i], pin);
        assert(uploads(once[k], rows[i]));
        lemma_queued_upload(once, rows[i]);
    }
    lemma_rewriting_keeps_the_length(once, writes, asked_again);
}

proof fn lemma_rewriting_keeps_the_length(
    queue: Seq<OutboxEntry>,
    writes: Seq<Option<i64>>,
    asked: Seq<OutboxEntry>,
)
    requires
        forall|i: int| 0 <= i < writes.len() ==> (#[trigger] writes[i]) is Some,
    ensures
        after_writes(queue, writes, asked).len() == queue.len(),
    decreases writes.len(),
{
    if writes.len() > 0 {
        assert(writes[writes.len() - 1] is Some);
        assert forall|i: int| 0 <= i < writes.drop_last().len() implies (
        #[trigger] writes.drop_last()[i]) is Some by {
            assert(writes[i] is Some);
        }
        lemma_rewriting_keeps_the_length(queue, writes.drop_last(), asked.drop_last());
    }
}

} // verus!
