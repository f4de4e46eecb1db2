//! Which tables are synced, and what each declares.

use vstd::prelude::*;
use vstd::string::*;

use crate::blob::{optional_text, BlobScope, CacheFill, Provenance};
use crate::text::{chars_of, same_text};

verus! {

/// What a table declares about the blob its rows carry.
#[derive(Debug)]
pub struct BlobDecl {
    pub namespace: String,
    pub provenance: Provenance,
    pub fill: CacheFill,
    pub scope: BlobScope,
    pub id_column: String,
    pub size_column: String,
    pub hash_column: String,
    pub cloud_path_column: Option<String>,
}

/// A table whose rows are synced.
#[derive(Debug)]
pub struct SyncedTable {
    /// The table's name.
    pub name: String,
    /// The blob its rows carry, if they carry one.
    pub blob: Option<BlobDecl>,
    /// The column that says whether a root row is remote, for a gated root.
    pub gate_column: Option<String>,
    /// Whether its rows are remote by construction.
    pub remote_root: bool,
}

/// Which gate column belongs to the first table with this name.
pub open spec fn gate_of(tables: Seq<SyncedTable>, name: Seq<char>) -> Option<Seq<char>>
    decreases tables.len(),
{
    if tables.len() == 0 {
        None
    } else if tables[0].name@ == name {
        optional_text(tables[0].gate_column)
    } else {
        gate_of(tables.skip(1), name)
    }
}

/// Whether a table with this name is remote by construction.
pub open spec fn declares_remote_root(tables: Seq<SyncedTable>, name: Seq<char>) -> bool {
    exists|i: int| 0 <= i < tables.len() && (#[trigger] tables[i]).name@ == name && tables[i].remote_root
}

/// Which gate column belongs to `root_table`, or `None` where it is no gated root.
pub fn gate_column<'a>(tables: &'a Vec<SyncedTable>, root_table: &str) -> (column: Option<&'a String>)
    ensures
        match column {
            Some(c) => gate_of(tables@, root_table@) == Some(c@),
            None => gate_of(tables@, root_table@) is None,
        },
{
    let mut i: usize = 0;
    assert(tables@.skip(0) =~= tables@);
    while i < tables.len()
        invariant
            i <= tables.len(),
            gate_of(tables@, root_table@) == gate_of(tables@.skip(i as int), root_table@),
        decreases tables.len() - i,
    {
        assert(tables@.skip(i as int)[0] == tables@[i as int]);
        assert(tables@.skip(i as int).skip(1) =~= tables@.skip(i + 1));
        if same_text(tables[i].name.as_str(), root_table) {
            return match &tables[i].gate_column {
                Some(column) => Some(column),
                None => None,
            };
        }
        i = i + 1;
    }
    None
}

/// Whether `root_table` is remote by construction.
pub fn is_remote_root(tables: &Vec<SyncedTable>, root_table: &str) -> (remote: bool)
    ensures
        remote == declares_remote_root(tables@, root_table@),
{
    let mut i: usize = 0;
    while i < tables.len()
        invariant
            i <= tables.len(),
            forall|j: int|
                0 <= j < i ==> !((#[trigger] tables@[j]).name@ == root_table@
                    && tables@[j].remote_root),
        decreases tables.len() - i,
    {
        if same_text(tables[i].name.as_str(), root_table) && tables[i].remote_root {
            assert(tables@[i as int].name@ == root_table@);
            return true;
        }
        i = i + 1;
    }
    false
}

/// An identifier with every double quote doubled.
pub open spec fn doubled_quotes(name: Seq<char>) -> Seq<char>
    decreases name.len(),
{
    if name.len() == 0 {
        Seq::empty()
    } else if name.last() == '"' {
        doubled_quotes(name.drop_last()).push('"').push('"')
    } else {
        doubled_quotes(name.drop_last()).push(name.last())
    }
}

/// An SQL identifier: the name between double quotes, its own doubled.
pub open spec fn quoted_ident(name: Seq<char>) -> Seq<char> {
    seq!['"'] + doubled_quotes(name) + seq!['"']
}

/// Writes a name as an SQL identifier, so that no name can end it early.
pub fn quote_ident(name: &str) -> (quoted: String)
    ensures
        quoted@ == quoted_ident(name@),
{
    let chars: Vec<char> = chars_of(name);
    let mut quoted: String = String::new();
    quoted.push('"');
    let mut i: usize = 0;
    assert(chars@.take(0) =~= Seq::<char>::empty());
    assert(quoted@ =~= seq!['"'] + doubled_quotes(chars@.take(0)));
    while i < chars.len()
        invariant
            i <= chars.len(),
            quoted@ == seq!['"'] + doubled_quotes(chars@.take(i as int)),
        decreases chars.len() - i,
    {
        assert(chars@.take(i + 1).drop_last() =~= chars@.take(i as int));
        let c: char = chars[i];
        if c == '"' {
            quoted.push('"');
        }
        quoted.push(c);
        i = i + 1;
        assert(quoted@ =~= seq!['"'] + doubled_quotes(chars@.take(i as int)));
    }
    assert(chars@.take(chars@.len() as int) =~= chars@);
    quoted.push('"');
    assert(quoted@ =~= quoted_ident(name@));
    quoted
}

} // verus!
