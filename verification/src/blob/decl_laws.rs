//! What holds of declarations as a whole, of the blobs that rows refer to, and of the files
//! that this device keeps of them.

use vstd::prelude::*;

use crate::blob::decl::{
    blobs_of_rows, column_index, integer_of, plain_key_parts, resolved_decl, resolved_decls, DeclErrorView, RowChange, TableBlobView,
};
use crate::blob::evict::{candidates, is_candidate, is_eviction, is_recency_order, is_unfinished, total_size, CacheFile};
use crate::blob::local_files::{LocalRead, LocalReadReply, LocalReadStep};
use crate::blob::BlobRefView;
use crate::digest::is_hex_text;
use crate::session::{BlobDecl, SyncedTable};
use crate::store_dir::{cloud_path_fault, segments, texts, token_fault};
use crate::vocabulary_laws::{
    law_segments_join_back, law_segments_of_joined_texts, law_text_without_separator_is_one_segment, law_what_a_path_token_is,
};

verus! {

/// The first column with a name.
pub open spec fn is_column(columns: Seq<Seq<char>>, name: Seq<char>, i: int) -> bool {
    &&& 0 <= i < columns.len()
    &&& columns[i] == name
    &&& forall|j: int| 0 <= j < i ==> #[trigger] columns[j] != name
}

proof fn lemma_column_index(columns: Seq<Seq<char>>, name: Seq<char>)
    ensures
        match column_index(columns, name) {
            Some(i) => is_column(columns, name, i),
            None => !columns.contains(name),
        },
    decreases columns.len(),
{
    if columns.len() > 0 {
        let rest = columns.skip(1);
        lemma_column_index(rest, name);
        if columns[0] != name {
            match column_index(rest, name) {
                Some(i) => {
                    assert(columns[i + 1] == rest[i]);
                    assert forall|j: int| 0 <= j < i + 1 implies #[trigger] columns[j] != name by {
                        if j > 0 {
                            assert(columns[j] == rest[j - 1]);
                        }
                    }
                },
                None => {
                    if columns.contains(name) {
                        let k = columns.index_of(name);
                        assert(rest[k - 1] == name);
                    }
                },
            }
        }
    }
}

/// A declaration is resolved exactly where its table has all of the declared columns; it
/// then names each of them where it stands first, and carries everything else as it was
/// declared.
pub proof fn law_declaration_finds_its_columns(
    decl: BlobDecl,
    table: Seq<char>,
    columns: Seq<Seq<char>>,
)
    ensures
        resolved_decl(decl, table, columns) is Ok <==> {
            &&& columns.contains(decl.id_column@)
            &&& columns.contains(decl.size_column@)
            &&& columns.contains(decl.hash_column@)
            &&& decl.cloud_path_column matches Some(name) ==> columns.contains(name@)
        },
        resolved_decl(decl, table, columns) matches Ok(blob) ==> {
            &&& is_column(columns, decl.id_column@, blob.id_col)
            &&& is_column(columns, decl.size_column@, blob.size_col)
            &&& is_column(columns, decl.hash_column@, blob.hash_col)
            &&& match decl.cloud_path_column {
                Some(name) => blob.cloud_path_col is Some && is_column(
                    columns,
                    name@,
                    blob.cloud_path_col->0,
                ) && blob.cloud_path_col_name == Some(name@),
                None => blob.cloud_path_col is None && blob.cloud_path_col_name is None,
            }
            &&& blob.namespace == decl.namespace@ && blob.provenance == decl.provenance && blob.fill
                == decl.fill && blob.scope == decl.scope@
            &&& blob.id_col_name == decl.id_column@ && blob.size_col_name == decl.size_column@
                && blob.hash_col_name == decl.hash_column@
        },
        resolved_decl(decl, table, columns) matches Err(fault) ==> (
        fault matches DeclErrorView::MissingColumn { table: named, column } && named == table
            && !columns.contains(column)),
{
    lemma_column_index(columns, decl.id_column@);
    lemma_column_index(columns, decl.size_column@);
    lemma_column_index(columns, decl.hash_column@);
    if let Some(name) = decl.cloud_path_column {
        lemma_column_index(columns, name@);
    }
}

/// Every blob-bearing table is declared, and no other: the declaration under a name is that
/// of the last table of this name that carries a blob, resolved against its own schema.
pub proof fn law_every_blob_table_is_declared(
    tables: Seq<SyncedTable>,
    schemas: Seq<Result<Vec<String>, String>>,
    name: Seq<char>,
)
    requires
        tables.len() == schemas.len(),
        resolved_decls(tables, schemas) is Ok,
    ensures
        ({
            let found = resolved_decls(tables, schemas)->Ok_0;
            &&& found.contains_key(name) == exists|t: int|
                0 <= t < tables.len() && (#[trigger] tables[t]).name@ == name && tables[t].blob is Some
            &&& forall|t: int|
                0 <= t < tables.len() && (#[trigger] tables[t]).name@ == name && tables[t].blob is Some
                    && (forall|u: int|
                    t < u < tables.len() ==> !((#[trigger] tables[u]).name@ == name
                        && tables[u].blob is Some)) ==> schemas[t] is Ok && resolved_decl(
                    tables[t].blob->0,
                    name,
                    texts(schemas[t]->Ok_0@),
                ) == Ok::<TableBlobView, DeclErrorView>(found[name])
        }),
    decreases tables.len(),
{
    if tables.len() > 0 {
        let (earlier, before) = (tables.drop_last(), schemas.drop_last());
        law_every_blob_table_is_declared(earlier, before, name);
        let last = tables.len() - 1;
        let found = resolved_decls(tables, schemas)->Ok_0;
        assert(forall|t: int| 0 <= t < last ==> #[trigger] earlier[t] == tables[t]);
        assert(forall|t: int| 0 <= t < last ==> #[trigger] before[t] == schemas[t]);
        let here = tables[last].name@ == name && tables[last].blob is Some;
        if exists|t: int|
            0 <= t < earlier.len() && (#[trigger] earlier[t]).name@ == name && earlier[t].blob is Some {
            let t = choose|t: int|
                0 <= t < earlier.len() && (#[trigger] earlier[t]).name@ == name
                    && earlier[t].blob is Some;
            assert(tables[t].name@ == name && tables[t].blob is Some);
        }
        if exists|t: int|
            0 <= t < tables.len() && (#[trigger] tables[t]).name@ == name && tables[t].blob is Some {
            let t = choose|t: int|
                0 <= t < tables.len() && (#[trigger] tables[t]).name@ == name && tables[t].blob is Some;
            if t < last {
                assert(earlier[t].name@ == name && earlier[t].blob is Some);
            }
        }
        assert forall|t: int|
            0 <= t < tables.len() && (#[trigger] tables[t]).name@ == name && tables[t].blob is Some && (
            forall|u: int|
                t < u < tables.len() ==> !((#[trigger] tables[u]).name@ == name
                    && tables[u].blob is Some)) implies schemas[t] is Ok && resolved_decl(
            tables[t].blob->0,
            name,
            texts(schemas[t]->Ok_0@),
        ) == Ok::<TableBlobView, DeclErrorView>(found[name]) by {
            if t < last {
                assert(!here) by {
                    assert(tables[last].name@ == tables[last].name@);
                }
                assert(earlier[t].name@ == name);
                assert forall|u: int| t < u < earlier.len() implies !((#[trigger] earlier[u]).name@
                    == name && earlier[u].blob is Some) by {
                    assert(tables[u] == earlier[u]);
                }
            }
        }
    }
}

/// The blobs of two lists of rows are those of the one and then those of the other.
pub proof fn law_blobs_of_rows_add_up(
    decls: Map<Seq<char>, TableBlobView>,
    a: Seq<RowChange>,
    b: Seq<RowChange>,
)
    ensures
        blobs_of_rows(decls, a + b) == blobs_of_rows(decls, a) + blobs_of_rows(decls, b),
    decreases b.len(),
{
    if b.len() == 0 {
        assert(a + b =~= a);
        assert(blobs_of_rows(decls, a) + blobs_of_rows(decls, b) =~= blobs_of_rows(decls, a));
    } else {
        law_blobs_of_rows_add_up(decls, a, b.drop_last());
        assert((a + b).drop_last() =~= a + b.drop_last());
        assert((a + b).last() == b.last());
        assert(blobs_of_rows(decls, a + b) =~= blobs_of_rows(decls, a) + blobs_of_rows(decls, b));
    }
}

/// A row refers to a blob exactly where its table is declared and the row has a blob id. The
/// blob has that id, the row's own readable path where the table declares one, and
/// everything else from the declaration.
pub proof fn law_blob_of_one_row(decls: Map<Seq<char>, TableBlobView>, row: RowChange)
    ensures
        ({
            let blobs = blobs_of_rows(decls, seq![row]);
            let table = decls[row.table@];
            let has_id = decls.contains_key(row.table@) && 0 <= table.id_col < row.columns@.len()
                && row.columns@[table.id_col] is Some;
            if has_id {
                &&& blobs.len() == 1
                &&& blobs[0].id == row.columns@[table.id_col]->0@
                &&& blobs[0].namespace == table.namespace
                &&& blobs[0].scope == table.scope
                &&& blobs[0].provenance == table.provenance
                &&& blobs[0].fill == table.fill
                &&& blobs[0].cloud_path == (match table.cloud_path_col {
                    Some(i) => if 0 <= i < row.columns@.len() && row.columns@[i] is Some {
                        Some(row.columns@[i]->0@)
                    } else {
                        None
                    },
                    None => None,
                })
            } else {
                blobs.len() == 0
            }
        }),
{
    let rows = seq![row];
    assert(rows.drop_last() =~= Seq::<RowChange>::empty());
    assert(blobs_of_rows(decls, rows.drop_last()) =~= Seq::<BlobRefView>::empty());
    assert(rows.last() == row);
}

/// A readable key gives back the namespace and the blob id that it was made of, with any
/// uploader, generation and readable path; and no other key gives anything.
pub proof fn law_readable_key_gives_its_blob_back(
    namespace: Seq<char>,
    uploader: Seq<char>,
    generation: Seq<char>,
    id: Seq<char>,
    path: Seq<char>,
)
    requires
        token_fault(namespace) is None,
        token_fault(uploader) is None,
        token_fault(id) is None,
        cloud_path_fault(path) is None,
        generation.len() == 64 && is_hex_text(generation),
    ensures
        plain_key_parts(
            namespace.push('/') + (".coven-generations"@.push('/') + (uploader.push('/') + (
            generation.push('/') + (id.push('/') + path)))),
        ) == Some((namespace, id)),
{
    let marker = ".coven-generations"@;
    reveal_strlit(".coven-generations");
    law_what_a_path_token_is(namespace);
    law_what_a_path_token_is(uploader);
    law_what_a_path_token_is(id);
    assert(!generation.contains('/')) by {
        if generation.contains('/') {
            let i = generation.index_of('/');
            assert(crate::digest::is_hex_char(generation[i]));
        }
    }
    assert(!marker.contains('/')) by {
        if marker.contains('/') {
            let i = marker.index_of('/');
            assert(0 <= i < 18);
        }
    }
    let tail4 = id.push('/') + path;
    let tail3 = generation.push('/') + tail4;
    let tail2 = uploader.push('/') + tail3;
    let tail1 = marker.push('/') + tail2;
    let key = namespace.push('/') + tail1;
    law_segments_of_joined_texts(namespace, tail1, '/');
    law_segments_of_joined_texts(marker, tail2, '/');
    law_segments_of_joined_texts(uploader, tail3, '/');
    law_segments_of_joined_texts(generation, tail4, '/');
    law_segments_of_joined_texts(id, path, '/');
    law_text_without_separator_is_one_segment(namespace, '/');
    law_text_without_separator_is_one_segment(marker, '/');
    law_text_without_separator_is_one_segment(uploader, '/');
    law_text_without_separator_is_one_segment(generation, '/');
    law_text_without_separator_is_one_segment(id, '/');
    law_segments_join_back(path, '/');
    let parts = segments(key, '/');
    assert(parts =~= seq![namespace, marker, uploader, generation, id] + segments(path, '/'));
    assert(parts.skip(5) =~= segments(path, '/'));
}

/// A file is still being written exactly where its name, which is what follows its last
/// separator, begins with the mark of such files.
pub proof fn law_unfinished_files_are_told_by_their_name(folder: Seq<char>, name: Seq<char>)
    requires
        !name.contains('/'),
    ensures
        is_unfinished(folder.push('/') + name) == ".tmp."@.is_prefix_of(name),
        is_unfinished(name) == ".tmp."@.is_prefix_of(name),
{
    reveal_strlit(".tmp.");
    law_segments_of_joined_texts(folder, name, '/');
    law_text_without_separator_is_one_segment(name, '/');
    let parts = segments(folder, '/') + seq![name];
    assert(parts.last() == name);
    if name.len() >= 5 {
        assert(name.take(5) =~= name.subrange(0, 5));
    }
}

/// No file is spared but the one just written: as long as the cache is over its budget, all
/// others go, and every file that stays is at least as recent as each one that goes.
pub proof fn law_only_the_newest_and_the_protected_stay(
    files: Seq<CacheFile>,
    protect: Option<Seq<char>>,
    budget: u64,
    evict: Seq<CacheFile>,
    left: nat,
    k: int,
    i: int,
)
    requires
        is_eviction(files, protect, budget, evict, left),
        0 <= k < files.len(),
        protect != Some(files[k].path@),
        !evict.contains(files[k]),
    ensures
        left <= budget,
        0 <= i < evict.len() ==> evict[i].recency <= files[k].recency,
        left == total_size(files) - total_size(evict),
{
    let all = candidates(files, protect);
    let order = choose|order: Seq<CacheFile>|
        {
            &&& #[trigger] is_recency_order(all, order)
            &&& evict.len() <= order.len()
            &&& evict == order.take(evict.len() as int)
            &&& left == total_size(files) - total_size(evict)
            &&& left <= budget || evict.len() == order.len()
            &&& forall|k: int|
                0 <= k < evict.len() ==> total_size(files) - #[trigger] total_size(evict.take(k))
                    > budget
        };
    let file = files[k];
    let pred = |f: CacheFile| is_candidate(f, protect);
    files.lemma_filter_contains(pred, k);
    assert(all.contains(file));
    all.to_multiset_ensures();
    order.to_multiset_ensures();
    assert(all.to_multiset().count(file) > 0);
    assert(order.contains(file));
    let at = order.index_of(file);
    if at < evict.len() {
        assert(evict[at] == file);
        assert(evict.contains(file));
    }
    if 0 <= i < evict.len() {
        assert(order[i] == evict[i]);
    }
}

/// A read of the local store ends with what is there: bytes only from a file that was found
/// with exactly the declared length, nothing only where no file was found; and it fails only
/// where an operation failed or the length is another.
pub proof fn law_local_read_goes_by_what_is_there(
    before: LocalRead,
    reply: LocalReadReply,
    after: LocalRead,
)
    requires
        before.follows(reply, after),
    ensures
        after == (LocalRead { step: after.step, ..before }),
        match (before.step, reply) {
            (LocalReadStep::Probe, LocalReadReply::Exists(found)) => match found {
                Ok(there) => if there {
                    after.step is MeasureLength
                } else {
                    after.step == (LocalReadStep::Done { found: false })
                },
                Err(_) => after.step is Failed,
            },
            (LocalReadStep::MeasureLength, LocalReadReply::Length(length)) => {
                &&& after.step is ReadFile == (length == Ok::<u64, String>(before.expected_size))
                &&& after.step is Failed == (length != Ok::<u64, String>(before.expected_size))
            },
            (LocalReadStep::ReadFile, LocalReadReply::Bytes(done)) => match done {
                Ok(_) => after.step == (LocalReadStep::Done { found: true }),
                Err(_) => after.step is Failed,
            },
            _ => after == before,
        },
{
}

/// The size of some files is the sum of their sizes, in whatever groups they are added up.
pub proof fn law_sizes_add_up(a: Seq<CacheFile>, b: Seq<CacheFile>, one: CacheFile)
    ensures
        total_size(a + b) == total_size(a) + total_size(b),
        total_size(seq![one]) == one.size,
    decreases b.len(),
{
    let single = seq![one];
    assert(single.drop_last() =~= Seq::<CacheFile>::empty());
    assert(total_size(single.drop_last()) == 0);
    if b.len() == 0 {
        assert(a + b =~= a);
    } else {
        law_sizes_add_up(a, b.drop_last(), one);
        assert((a + b).drop_last() =~= a + b.drop_last());
        assert((a + b).last() == b.last());
    }
}

/// The size that a row carries is the whole number in its size column: none where the row
/// carries none, and refused where it is no number or one below zero.
pub proof fn law_size_of_a_row(
    table: TableBlobView,
    name: Seq<char>,
    columns: Seq<Option<String>>,
)
    ensures
        ({
            let carried = 0 <= table.size_col < columns.len() && columns[table.size_col] is Some;
            let raw = columns[table.size_col]->0@;
            let size = table.size_of(name, columns);
            &&& !carried ==> size == Ok::<Option<u64>, DeclErrorView>(None)
            &&& carried && integer_of(raw) is None ==> size == Err::<Option<u64>, DeclErrorView>(
                DeclErrorView::InvalidSizeValue { table: name, value: raw },
            )
            &&& carried && integer_of(raw) is Some && integer_of(raw)->0 < 0 ==> (size matches Err(
                fault,
            ) && (fault matches DeclErrorView::InvalidSize { table: named, value } && named == name
                && value == integer_of(raw)->0))
            &&& carried && integer_of(raw) is Some && integer_of(raw)->0 >= 0 ==> (size matches Ok(
                Some(n),
            ) && n == integer_of(raw)->0)
        }),
{
}

} // verus!
