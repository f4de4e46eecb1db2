//! The resolved blob declarations: which rows carry blobs, and where each blob's columns
//! are.
//!
//! A host declares for each table the columns that locate a blob. [`BlobDecls`] resolves
//! those names to positions in the live schema once, so that a row's blob is read straight
//! off a changeset row or a selected row.

use vstd::prelude::*;
use vstd::string::*;

use crate::blob::{duplicate_text, optional_text, BlobRef, BlobRefView, BlobScope, CacheFill, Provenance};
use crate::digest::{all_hex_chars, is_hex_text};
use crate::session::{quote_ident, quoted_ident, BlobDecl, SyncedTable};
use crate::store_dir::{first_fault, first_part_fault, segments, split_text, texts, token_fault, validate_path_token};
use crate::text::{chars_of, debug_quote, debug_text, decimal, decimal_text, same_text, signed_decimal, signed_decimal_text};

verus! {

/// Why blob declarations could not be resolved or read.
#[allow(inconsistent_fields)]
#[derive(Debug)]
pub enum BlobDeclError {
    /// A declared column is not in the table's live schema.
    MissingColumn { table: String, column: String },
    /// The database could not be read.
    Sqlite(String),
    /// A row's size is no integer.
    InvalidSizeValue { table: String, value: String },
    /// A row's size is negative.
    InvalidSize { table: String, value: i64 },
    /// Two walks over one changeset gave different row counts.
    ChangesetWalkMismatch { old_count: usize, new_count: usize },
    /// The rows below a root could not be found.
    Gate(String),
}

/// What a [`BlobDeclError`] says.
#[allow(inconsistent_fields)]
pub ghost enum DeclErrorView {
    MissingColumn { table: Seq<char>, column: Seq<char> },
    Sqlite(Seq<char>),
    InvalidSizeValue { table: Seq<char>, value: Seq<char> },
    InvalidSize { table: Seq<char>, value: i64 },
    ChangesetWalkMismatch { old_count: nat, new_count: nat },
    Gate(Seq<char>),
}

impl View for BlobDeclError {
    type V = DeclErrorView;

    open spec fn view(&self) -> DeclErrorView {
        match self {
            BlobDeclError::MissingColumn { table, column } => DeclErrorView::MissingColumn {
                table: table@,
                column: column@,
            },
            BlobDeclError::Sqlite(detail) => DeclErrorView::Sqlite(detail@),
            BlobDeclError::InvalidSizeValue { table, value } => DeclErrorView::InvalidSizeValue {
                table: table@,
                value: value@,
            },
            BlobDeclError::InvalidSize { table, value } => DeclErrorView::InvalidSize {
                table: table@,
                value: *value,
            },
            BlobDeclError::ChangesetWalkMismatch { old_count, new_count } => {
                DeclErrorView::ChangesetWalkMismatch {
                    old_count: *old_count as nat,
                    new_count: *new_count as nat,
                }
            },
            BlobDeclError::Gate(detail) => DeclErrorView::Gate(detail@),
        }
    }
}

impl DeclErrorView {
    /// The error in words.
    pub open spec fn message_text(self) -> Seq<char> {
        match self {
            DeclErrorView::MissingColumn { table, column } => "blob declaration names column "@
                + debug_text(column) + " absent from "@ + debug_text(table),
            DeclErrorView::Sqlite(detail) => "blob declaration schema read failed: "@ + detail,
            DeclErrorView::InvalidSizeValue { table, value } => {
                "blob declaration found non-integer size in "@ + table + ": "@ + debug_text(value)
            },
            DeclErrorView::InvalidSize { table, value } => {
                "blob declaration found invalid size in "@ + table + ": "@ + signed_decimal(
                    value as int,
                )
            },
            DeclErrorView::ChangesetWalkMismatch { old_count, new_count } => {
                "blob declaration changeset walk mismatch: old="@ + decimal(old_count) + ", new="@
                    + decimal(new_count)
            },
            DeclErrorView::Gate(detail) => "blob declaration FK walk failed: "@ + detail,
        }
    }
}

impl BlobDeclError {
    /// The error in words.
    pub fn message(&self) -> (text: String)
        ensures
            text@ == self@.message_text(),
    {
        match self {
            BlobDeclError::MissingColumn { table, column } => "blob declaration names column ".to_owned().concat(
                debug_quote(column.as_str()).as_str(),
            ).concat(" absent from ").concat(debug_quote(table.as_str()).as_str()),
            BlobDeclError::Sqlite(detail) => "blob declaration schema read failed: ".to_owned().concat(
                detail.as_str(),
            ),
            BlobDeclError::InvalidSizeValue { table, value } => "blob declaration found non-integer size in ".to_owned().concat(
                table.as_str(),
            ).concat(": ").concat(debug_quote(value.as_str()).as_str()),
            BlobDeclError::InvalidSize { table, value } => "blob declaration found invalid size in ".to_owned().concat(
                table.as_str(),
            ).concat(": ").concat(signed_decimal_text(*value).as_str()),
            BlobDeclError::ChangesetWalkMismatch { old_count, new_count } => "blob declaration changeset walk mismatch: old=".to_owned().concat(
                decimal_text(*old_count as u64).as_str(),
            ).concat(", new=").concat(decimal_text(*new_count as u64).as_str()),
            BlobDeclError::Gate(detail) => "blob declaration FK walk failed: ".to_owned().concat(
                detail.as_str(),
            ),
        }
    }
}

/// One row of a changeset: its table, and the columns the change carries, in schema order.
#[derive(Debug)]
pub struct RowChange {
    pub table: String,
    pub columns: Vec<Option<String>>,
}

/// The value of a column: `None` where it is NULL or not carried.
pub open spec fn column_value(columns: Seq<Option<String>>, i: int) -> Option<Seq<char>> {
    if 0 <= i < columns.len() {
        optional_text(columns[i])
    } else {
        None
    }
}

fn column_text<'a>(columns: &'a Vec<Option<String>>, i: usize) -> (value: Option<&'a String>)
    ensures
        match value {
            Some(text) => column_value(columns@, i as int) == Some(text@),
            None => column_value(columns@, i as int) is None,
        },
{
    if i < columns.len() {
        match &columns[i] {
            Some(text) => Some(text),
            None => None,
        }
    } else {
        None
    }
}

fn column_copy(columns: &Vec<Option<String>>, i: usize) -> (value: Option<String>)
    ensures
        optional_text(value) == column_value(columns@, i as int),
{
    match column_text(columns, i) {
        Some(text) => Some(text.clone()),
        None => None,
    }
}

/// A blob-bearing table's declaration with its columns found in the live schema, which is
/// the order of a changeset's columns too.
#[derive(Debug)]
pub struct TableBlob {
    pub namespace: String,
    pub provenance: Provenance,
    pub fill: CacheFill,
    pub id_col: usize,
    pub size_col: usize,
    pub hash_col: usize,
    pub id_col_name: String,
    pub size_col_name: String,
    pub hash_col_name: String,
    pub cloud_path_col: Option<usize>,
    pub cloud_path_col_name: Option<String>,
    pub scope: BlobScope,
}

/// What a [`TableBlob`] says.
pub ghost struct TableBlobView {
    pub namespace: Seq<char>,
    pub provenance: Provenance,
    pub fill: CacheFill,
    pub id_col: int,
    pub size_col: int,
    pub hash_col: int,
    pub id_col_name: Seq<char>,
    pub size_col_name: Seq<char>,
    pub hash_col_name: Seq<char>,
    pub cloud_path_col: Option<int>,
    pub cloud_path_col_name: Option<Seq<char>>,
    pub scope: Option<Seq<char>>,
}

impl View for TableBlob {
    type V = TableBlobView;

    open spec fn view(&self) -> TableBlobView {
        TableBlobView {
            namespace: self.namespace@,
            provenance: self.provenance,
            fill: self.fill,
            id_col: self.id_col as int,
            size_col: self.size_col as int,
            hash_col: self.hash_col as int,
            id_col_name: self.id_col_name@,
            size_col_name: self.size_col_name@,
            hash_col_name: self.hash_col_name@,
            cloud_path_col: match self.cloud_path_col {
                Some(i) => Some(i as int),
                None => None,
            },
            cloud_path_col_name: optional_text(self.cloud_path_col_name),
            scope: self.scope@,
        }
    }
}

impl TableBlobView {
    /// The blob that a row with these columns refers to, or `None` where it has no blob id.
    pub open spec fn blob_of(self, columns: Seq<Option<String>>) -> Option<BlobRefView> {
        match column_value(columns, self.id_col) {
            None => None,
            Some(id) => Some(
                BlobRefView {
                    namespace: self.namespace,
                    id,
                    scope: self.scope,
                    cloud_path: match self.cloud_path_col {
                        Some(i) => column_value(columns, i),
                        None => None,
                    },
                    provenance: self.provenance,
                    fill: self.fill,
                },
            ),
        }
    }

    /// The plaintext size that a changeset row carries.
    pub open spec fn size_of(self, table: Seq<char>, columns: Seq<Option<String>>) -> Result<
        Option<u64>,
        DeclErrorView,
    > {
        match column_value(columns, self.size_col) {
            None => Ok(None),
            Some(raw) => match integer_of(raw) {
                None => Err(DeclErrorView::InvalidSizeValue { table, value: raw }),
                Some(value) => if value < 0 {
                    Err(DeclErrorView::InvalidSize { table, value: value as i64 })
                } else {
                    Ok(Some(value as u64))
                },
            },
        }
    }
}

/// The number that a run of decimal digits stands for.
pub open spec fn digits_value(digits: Seq<char>) -> int
    decreases digits.len(),
{
    if digits.len() == 0 {
        0
    } else {
        digits_value(digits.drop_last()) * 10 + (digits.last() as int - '0' as int)
    }
}

/// Whether a text is one or more decimal digits.
pub open spec fn is_digits(s: Seq<char>) -> bool {
    s.len() > 0 && forall|i: int| 0 <= i < s.len() ==> '0' <= #[trigger] s[i] <= '9'
}

/// The signed 64-bit integer that a text is: an optional sign and decimal digits, within
/// range; `None` for every other text.
pub open spec fn integer_of(text: Seq<char>) -> Option<int> {
    let negative = text.len() > 0 && text[0] == '-';
    let signed = text.len() > 0 && (text[0] == '-' || text[0] == '+');
    let digits = if signed {
        text.skip(1)
    } else {
        text
    };
    let value = if negative {
        -digits_value(digits)
    } else {
        digits_value(digits)
    };
    if is_digits(digits) && i64::MIN <= value <= i64::MAX {
        Some(value)
    } else {
        None
    }
}

/// Reads a signed 64-bit integer.
pub fn parse_integer(text: &str) -> (value: Option<i64>)
    ensures
        match value {
            Some(v) => integer_of(text@) == Some(v as int),
            None => integer_of(text@) is None,
        },
{
    let chars: Vec<char> = chars_of(text);
    let signed: bool = chars.len() > 0 && (chars[0] == '-' || chars[0] == '+');
    let negative: bool = chars.len() > 0 && chars[0] == '-';
    let start: usize = if signed {
        1
    } else {
        0
    };
    let ghost digits = if signed {
        text@.skip(1)
    } else {
        text@
    };
    assert(digits =~= chars@.skip(start as int));
    if start == chars.len() {
        assert(digits.len() == 0);
        return None;
    }
    let mut magnitude: i128 = 0;
    let mut i: usize = start;
    assert(digits.take(0) =~= Seq::<char>::empty());
    while i < chars.len()
        invariant
            start <= i <= chars.len(),
            digits == chars@.skip(start as int),
            signed == (text@.len() > 0 && (text@[0] == '-' || text@[0] == '+')),
            digits == (if signed {
                text@.skip(1)
            } else {
                text@
            }),
            forall|j: int| 0 <= j < i - start ==> '0' <= #[trigger] digits[j] <= '9',
            magnitude == digits_value(digits.take(i - start)),
            0 <= magnitude <= 9_223_372_036_854_775_808,
        decreases chars.len() - i,
    {
        let c: char = chars[i];
        let ghost k = i - start;
        assert(digits[k] == c);
        if !('0' <= c && c <= '9') {
            assert(!is_digits(digits));
            return None;
        }
        assert(digits.take(k + 1).drop_last() =~= digits.take(k));
        assert(digits.take(k + 1).last() == c);
        let digit: i128 = digit_value(c);
        let wider: i128 = magnitude * 10 + digit;
        if wider > 9_223_372_036_854_775_808 {
            proof {
                if is_digits(digits) {
                    lemma_digits_grow(digits, k + 1);
                }
            }
            return None;
        }
        magnitude = wider;
        i = i + 1;
    }
    assert(digits.take(digits.len() as int) =~= digits);
    assert(is_digits(digits));
    if negative {
        Some((-magnitude) as i64)
    } else if magnitude > 9_223_372_036_854_775_807 {
        None
    } else {
        Some(magnitude as i64)
    }
}

fn digit_value(c: char) -> (value: i128)
    requires
        '0' <= c <= '9',
    ensures
        value == c as int - '0' as int,
        0 <= value <= 9,
{
    (c as u32 - 48) as i128
}

proof fn lemma_digits_grow(digits: Seq<char>, n: int)
    requires
        is_digits(digits),
        0 <= n <= digits.len(),
    ensures
        0 <= digits_value(digits.take(n)) <= digits_value(digits),
    decreases digits.len() - n,
{
    lemma_digits_nonnegative(digits, n);
    if n < digits.len() {
        lemma_digits_grow(digits, n + 1);
        assert(digits.take(n + 1).drop_last() =~= digits.take(n));
        assert(digits.take(n + 1).last() == digits[n]);
    } else {
        assert(digits.take(n) =~= digits);
    }
}

proof fn lemma_digits_nonnegative(digits: Seq<char>, n: int)
    requires
        is_digits(digits),
        0 <= n <= digits.len(),
    ensures
        0 <= digits_value(digits.take(n)),
    decreases n,
{
    if n > 0 {
        lemma_digits_nonnegative(digits, n - 1);
        assert(digits.take(n).drop_last() =~= digits.take(n - 1));
        assert(digits.take(n).last() == digits[n - 1]);
    } else {
        assert(digits.take(0) =~= Seq::<char>::empty());
    }
}

impl TableBlob {
    /// The reference for one of this table's rows, from the values that differ by row.
    pub fn blob_ref(&self, id: String, cloud_path: Option<String>) -> (blob: BlobRef)
        ensures
            blob@ == (BlobRefView {
                namespace: self@.namespace,
                id: id@,
                scope: self@.scope,
                cloud_path: optional_text(cloud_path),
                provenance: self@.provenance,
                fill: self@.fill,
            }),
    {
        BlobRef {
            namespace: self.namespace.clone(),
            id,
            scope: self.scope.clone(),
            cloud_path,
            provenance: self.provenance,
            fill: self.fill,
        }
    }

    /// The blob that a row with these columns refers to.
    pub fn ref_from_row(&self, columns: &Vec<Option<String>>) -> (blob: Option<BlobRef>)
        ensures
            match blob {
                Some(b) => self@.blob_of(columns@) == Some(b@),
                None => self@.blob_of(columns@) is None,
            },
    {
        match column_copy(columns, self.id_col) {
            None => None,
            Some(id) => {
                let cloud_path: Option<String> = match self.cloud_path_col {
                    Some(i) => column_copy(columns, i),
                    None => None,
                };
                Some(self.blob_ref(id, cloud_path))
            },
        }
    }

    /// The plaintext size that a changeset row carries, or `None` where it carries none.
    pub fn size_from_change(&self, table: &str, columns: &Vec<Option<String>>) -> (size: Result<
        Option<u64>,
        BlobDeclError,
    >)
        ensures
            match self@.size_of(table@, columns@) {
                Ok(found) => size == Ok::<Option<u64>, BlobDeclError>(found),
                Err(fault) => size matches Err(error) && error@ == fault,
            },
    {
        match column_text(columns, self.size_col) {
            None => Ok(None),
            Some(raw) => match parse_integer(raw.as_str()) {
                None => Err(
                    BlobDeclError::InvalidSizeValue { table: table.to_owned(), value: raw.clone() },
                ),
                Some(value) => declared_size(table, Some(value)),
            },
        }
    }

    /// The content hash that a changeset row carries, or `None` where it carries none.
    pub fn hash_from_change(&self, columns: &Vec<Option<String>>) -> (hash: Option<String>)
        ensures
            optional_text(hash) == column_value(columns@, self@.hash_col),
    {
        column_copy(columns, self.hash_col)
    }
}

/// The size that a row declares: a negative one is refused.
pub fn declared_size(table: &str, value: Option<i64>) -> (size: Result<Option<u64>, BlobDeclError>)
    ensures
        match value {
            None => size == Ok::<Option<u64>, BlobDeclError>(None),
            Some(v) => if v < 0 {
                size matches Err(error) && error@ == (DeclErrorView::InvalidSize {
                    table: table@,
                    value: v,
                })
            } else {
                size == Ok::<Option<u64>, BlobDeclError>(Some(v as u64))
            },
        },
{
    match value {
        None => Ok(None),
        Some(v) => if v < 0 {
            Err(BlobDeclError::InvalidSize { table: table.to_owned(), value: v })
        } else {
            Ok(Some(v as u64))
        },
    }
}

/// The position of a column in a schema.
pub open spec fn column_index(columns: Seq<Seq<char>>, name: Seq<char>) -> Option<int>
    decreases columns.len(),
{
    if columns.len() == 0 {
        None
    } else if columns[0] == name {
        Some(0)
    } else {
        match column_index(columns.skip(1), name) {
            Some(i) => Some(i + 1),
            None => None,
        }
    }
}

/// A declaration with its columns found in the schema of its table, or the first declared
/// column that the schema lacks.
pub open spec fn resolved_decl(decl: BlobDecl, table: Seq<char>, columns: Seq<Seq<char>>) -> Result<
    TableBlobView,
    DeclErrorView,
> {
    match column_index(columns, decl.id_column@) {
        None => Err(DeclErrorView::MissingColumn { table, column: decl.id_column@ }),
        Some(id_col) => match column_index(columns, decl.size_column@) {
            None => Err(DeclErrorView::MissingColumn { table, column: decl.size_column@ }),
            Some(size_col) => match column_index(columns, decl.hash_column@) {
                None => Err(DeclErrorView::MissingColumn { table, column: decl.hash_column@ }),
                Some(hash_col) => {
                    let path_col = match decl.cloud_path_column {
                        None => Ok::<Option<int>, DeclErrorView>(None),
                        Some(name) => match column_index(columns, name@) {
                            None => Err(DeclErrorView::MissingColumn { table, column: name@ }),
                            Some(i) => Ok(Some(i)),
                        },
                    };
                    match path_col {
                        Err(fault) => Err(fault),
                        Ok(cloud_path_col) => Ok(
                            TableBlobView {
                                namespace: decl.namespace@,
                                provenance: decl.provenance,
                                fill: decl.fill,
                                id_col,
                                size_col,
                                hash_col,
                                id_col_name: decl.id_column@,
                                size_col_name: decl.size_column@,
                                hash_col_name: decl.hash_column@,
                                cloud_path_col,
                                cloud_path_col_name: optional_text(decl.cloud_path_column),
                                scope: decl.scope@,
                            },
                        ),
                    }
                },
            },
        },
    }
}

/// The declarations of all tables by name, or the first error. The schema of each table
/// stands at the same position as the table; only those of blob-bearing tables are read.
/// Of two tables with one name the later declaration counts.
pub open spec fn resolved_decls(
    tables: Seq<SyncedTable>,
    schemas: Seq<Result<Vec<String>, String>>,
) -> Result<Map<Seq<char>, TableBlobView>, DeclErrorView>
    decreases tables.len(),
{
    if tables.len() == 0 {
        Ok(Map::empty())
    } else {
        let table = tables.last();
        match resolved_decls(tables.drop_last(), schemas.drop_last()) {
            Err(fault) => Err(fault),
            Ok(before) => match table.blob {
                None => Ok(before),
                Some(decl) => match schemas.last() {
                    Err(detail) => Err(DeclErrorView::Sqlite(detail@)),
                    Ok(columns) => match resolved_decl(decl, table.name@, texts(columns@)) {
                        Err(fault) => Err(fault),
                        Ok(blob) => Ok(before.insert(table.name@, blob)),
                    },
                },
            },
        }
    }
}

fn find_column(table: &str, columns: &Vec<String>, name: &str) -> (index: Result<
    usize,
    BlobDeclError,
>)
    ensures
        match column_index(texts(columns@), name@) {
            Some(i) => index matches Ok(found) && found == i,
            None => index matches Err(error) && error@ == (DeclErrorView::MissingColumn {
                table: table@,
                column: name@,
            }),
        },
{
    let ghost all = texts(columns@);
    let mut i: usize = 0;
    assert(all.skip(0) =~= all);
    while i < columns.len()
        invariant
            i <= columns.len(),
            all == texts(columns@),
            column_index(all, name@) == (match column_index(all.skip(i as int), name@) {
                Some(k) => Some(k + i),
                None => None,
            }),
        decreases columns.len() - i,
    {
        assert(all.skip(i as int)[0] == columns@[i as int]@);
        assert(all.skip(i as int).skip(1) =~= all.skip(i + 1));
        if same_text(columns[i].as_str(), name) {
            return Ok(i);
        }
        i = i + 1;
    }
    Err(BlobDeclError::MissingColumn { table: table.to_owned(), column: name.to_owned() })
}

/// Finds a declaration's columns in the schema of its table.
pub fn resolve_decl(decl: &BlobDecl, table: &str, columns: &Vec<String>) -> (blob: Result<
    TableBlob,
    BlobDeclError,
>)
    ensures
        match resolved_decl(*decl, table@, texts(columns@)) {
            Ok(found) => blob matches Ok(b) && b@ == found,
            Err(fault) => blob matches Err(error) && error@ == fault,
        },
{
    let id_col: usize = match find_column(table, columns, decl.id_column.as_str()) {
        Ok(i) => i,
        Err(error) => return Err(error),
    };
    let size_col: usize = match find_column(table, columns, decl.size_column.as_str()) {
        Ok(i) => i,
        Err(error) => return Err(error),
    };
    let hash_col: usize = match find_column(table, columns, decl.hash_column.as_str()) {
        Ok(i) => i,
        Err(error) => return Err(error),
    };
    let cloud_path_col: Option<usize> = match &decl.cloud_path_column {
        None => None,
        Some(name) => match find_column(table, columns, name.as_str()) {
            Ok(i) => Some(i),
            Err(error) => return Err(error),
        },
    };
    Ok(
        TableBlob {
            namespace: decl.namespace.clone(),
            provenance: decl.provenance,
            fill: decl.fill,
            id_col,
            size_col,
            hash_col,
            id_col_name: decl.id_column.clone(),
            size_col_name: decl.size_column.clone(),
            hash_col_name: decl.hash_column.clone(),
            cloud_path_col,
            cloud_path_col_name: duplicate_text(&decl.cloud_path_column),
            scope: decl.scope.clone(),
        },
    )
}

/// The blob declarations of a database. A table that is not among them carries no blob.
#[derive(Debug)]
pub struct BlobDecls {
    tables: Vec<(String, TableBlob)>,
}

/// The declarations by table name.
pub open spec fn decl_map(tables: Seq<(String, TableBlob)>) -> Map<Seq<char>, TableBlobView>
    decreases tables.len(),
{
    if tables.len() == 0 {
        Map::empty()
    } else {
        decl_map(tables.drop_last()).insert(tables.last().0@, tables.last().1@)
    }
}

/// No two declarations are for one table.
pub open spec fn distinct_tables(tables: Seq<(String, TableBlob)>) -> bool {
    forall|i: int, j: int|
        0 <= i < j < tables.len() ==> (#[trigger] tables[i]).0@ != (#[trigger] tables[j]).0@
}

proof fn lemma_decl_map(tables: Seq<(String, TableBlob)>)
    requires
        distinct_tables(tables),
    ensures
        forall|i: int|
            0 <= i < tables.len() ==> decl_map(tables).contains_pair(
                (#[trigger] tables[i]).0@,
                tables[i].1@,
            ),
        forall|name: Seq<char>| #[trigger]
            decl_map(tables).contains_key(name) ==> exists|i: int|
                0 <= i < tables.len() && (#[trigger] tables[i]).0@ == name,
    decreases tables.len(),
{
    if tables.len() > 0 {
        let rest = tables.drop_last();
        assert(distinct_tables(rest)) by {
            assert forall|i: int, j: int| 0 <= i < j < rest.len() implies (
            #[trigger] rest[i]).0@ != (#[trigger] rest[j]).0@ by {
                assert(tables[i].0@ != tables[j].0@);
            }
        }
        lemma_decl_map(rest);
        assert forall|i: int| 0 <= i < tables.len() implies decl_map(tables).contains_pair(
            (#[trigger] tables[i]).0@,
            tables[i].1@,
        ) by {
            if i < rest.len() {
                assert(rest[i] == tables[i]);
                assert(tables[i].0@ != tables[tables.len() - 1].0@);
            }
        }
        assert forall|name: Seq<char>| #[trigger] decl_map(tables).contains_key(name) implies exists|
            i: int,
        | 0 <= i < tables.len() && (#[trigger] tables[i]).0@ == name by {
            if name == tables.last().0@ {
                assert(tables[tables.len() - 1].0@ == name);
            } else {
                assert(decl_map(rest).contains_key(name));
                let i = choose|i: int| 0 <= i < rest.len() && (#[trigger] rest[i]).0@ == name;
                assert(tables[i].0@ == name);
            }
        }
    }
}

proof fn lemma_decl_map_update(
    tables: Seq<(String, TableBlob)>,
    k: int,
    entry: (String, TableBlob),
)
    requires
        distinct_tables(tables),
        0 <= k < tables.len(),
        tables[k].0@ == entry.0@,
    ensures
        distinct_tables(tables.update(k, entry)),
        decl_map(tables.update(k, entry)) == decl_map(tables).insert(entry.0@, entry.1@),
{
    let updated = tables.update(k, entry);
    assert(distinct_tables(updated)) by {
        assert forall|i: int, j: int| 0 <= i < j < updated.len() implies (
        #[trigger] updated[i]).0@ != (#[trigger] updated[j]).0@ by {
            assert(tables[i].0@ != tables[j].0@);
        }
    }
    lemma_decl_map(tables);
    lemma_decl_map(updated);
    let wanted = decl_map(tables).insert(entry.0@, entry.1@);
    assert forall|name: Seq<char>| #[trigger]
        decl_map(updated).contains_key(name) <==> wanted.contains_key(name) by {
        if decl_map(updated).contains_key(name) {
            let i = choose|i: int| 0 <= i < updated.len() && (#[trigger] updated[i]).0@ == name;
            assert(tables[i].0@ == name);
            assert(decl_map(tables).contains_pair(tables[i].0@, tables[i].1@));
        }
        if wanted.contains_key(name) {
            if name == entry.0@ {
                assert(updated[k].0@ == name);
            } else {
                let i = choose|i: int| 0 <= i < tables.len() && (#[trigger] tables[i]).0@ == name;
                assert(updated[i].0@ == name);
            }
        }
    }
    assert forall|name: Seq<char>| #[trigger]
        decl_map(updated).contains_key(name) implies decl_map(updated)[name] == wanted[name] by {
        let i = choose|i: int| 0 <= i < updated.len() && (#[trigger] updated[i]).0@ == name;
        if name == entry.0@ {
            assert(updated[k].0@ == name);
        } else {
            assert(i != k);
            assert(tables[i] == updated[i]);
            assert(decl_map(tables).contains_pair(tables[i].0@, tables[i].1@));
        }
    }
    assert(decl_map(updated) =~= wanted);
}

impl View for BlobDecls {
    type V = Map<Seq<char>, TableBlobView>;

    closed spec fn view(&self) -> Map<Seq<char>, TableBlobView> {
        decl_map(self.tables@)
    }
}

impl BlobDecls {
    #[verifier::type_invariant]
    closed spec fn sound(self) -> bool {
        distinct_tables(self.tables@)
    }

    /// Resolves every table's declaration against its live schema. A declared column that
    /// a schema lacks is an error, never a silent drop.
    pub fn from_tables(schemas: &Vec<Result<Vec<String>, String>>, tables: &Vec<SyncedTable>) -> (decls:
        Result<BlobDecls, BlobDeclError>)
        requires
            schemas@.len() == tables@.len(),
        ensures
            match resolved_decls(tables@, schemas@) {
                Ok(found) => decls matches Ok(d) && d@ == found,
                Err(fault) => decls matches Err(error) && error@ == fault,
            },
    {
        let mut found: Vec<(String, TableBlob)> = Vec::new();
        let mut i: usize = 0;
        assert(tables@.take(0) =~= Seq::<SyncedTable>::empty());
        while i < tables.len()
            invariant
                i <= tables.len(),
                schemas@.len() == tables@.len(),
                distinct_tables(found@),
                resolved_decls(tables@.take(i as int), schemas@.take(i as int)) == Ok::<
                    Map<Seq<char>, TableBlobView>,
                    DeclErrorView,
                >(decl_map(found@)),
            decreases tables.len() - i,
        {
            proof {
                assert(tables@.take(i + 1).drop_last() =~= tables@.take(i as int));
                assert(schemas@.take(i + 1).drop_last() =~= schemas@.take(i as int));
                assert(tables@.take(i + 1).last() == tables@[i as int]);
                assert(schemas@.take(i + 1).last() == schemas@[i as int]);
            }
            match &tables[i].blob {
                None => {},
                Some(decl) => {
                    let resolved = match &schemas[i] {
                        Err(detail) => Err(BlobDeclError::Sqlite(detail.clone())),
                        Ok(columns) => resolve_decl(decl, tables[i].name.as_str(), columns),
                    };
                    match resolved {
                        Err(error) => {
                            proof {
                                lemma_resolved_error_stays(tables@, schemas@, i + 1);
                            }
                            return Err(error);
                        },
                        Ok(blob) => {
                            let name: String = tables[i].name.clone();
                            put_table(&mut found, name, blob);
                        },
                    }
                },
            }
            i = i + 1;
        }
        assert(tables@.take(tables@.len() as int) =~= tables@);
        assert(schemas@.take(schemas@.len() as int) =~= schemas@);
        Ok(BlobDecls { tables: found })
    }

    /// The declaration of `table`, or `None` where it carries no blob.
    pub fn table(&self, table: &str) -> (blob: Option<&TableBlob>)
        ensures
            match blob {
                Some(b) => self@.contains_pair(table@, b@),
                None => !self@.contains_key(table@),
            },
    {
        proof {
            use_type_invariant(self);
            lemma_decl_map(self.tables@);
        }
        let mut i: usize = 0;
        while i < self.tables.len()
            invariant
                i <= self.tables.len(),
                forall|j: int| 0 <= j < i ==> (#[trigger] self.tables@[j]).0@ != table@,
                forall|j: int|
                    0 <= j < self.tables@.len() ==> self@.contains_pair(
                        (#[trigger] self.tables@[j]).0@,
                        self.tables@[j].1@,
                    ),
                forall|name: Seq<char>| #[trigger]
                    self@.contains_key(name) ==> exists|j: int|
                        0 <= j < self.tables@.len() && (#[trigger] self.tables@[j]).0@ == name,
            decreases self.tables.len() - i,
        {
            assert(self@.contains_pair(self.tables@[i as int].0@, self.tables@[i as int].1@));
            if same_text(self.tables[i].0.as_str(), table) {
                return Some(&self.tables[i].1);
            }
            i = i + 1;
        }
        None
    }

    /// A table declared for `namespace`, or `None` where no table is.
    pub fn table_for_namespace(&self, namespace: &str) -> (found: Option<(&String, &TableBlob)>)
        ensures
            match found {
                Some((table, blob)) => self@.contains_pair(table@, blob@) && blob@.namespace
                    == namespace@,
                None => forall|table: Seq<char>| #[trigger]
                    self@.contains_key(table) ==> self@[table].namespace != namespace@,
            },
    {
        proof {
            use_type_invariant(self);
            lemma_decl_map(self.tables@);
        }
        let mut i: usize = 0;
        while i < self.tables.len()
            invariant
                i <= self.tables.len(),
                forall|j: int|
                    0 <= j < i ==> (#[trigger] self.tables@[j]).1@.namespace != namespace@,
                forall|j: int|
                    0 <= j < self.tables@.len() ==> self@.contains_pair(
                        (#[trigger] self.tables@[j]).0@,
                        self.tables@[j].1@,
                    ),
                forall|name: Seq<char>| #[trigger]
                    self@.contains_key(name) ==> exists|j: int|
                        0 <= j < self.tables@.len() && (#[trigger] self.tables@[j]).0@ == name,
            decreases self.tables.len() - i,
        {
            assert(self@.contains_pair(self.tables@[i as int].0@, self.tables@[i as int].1@));
            if same_text(self.tables[i].1.namespace.as_str(), namespace) {
                return Some((&self.tables[i].0, &self.tables[i].1));
            }
            i = i + 1;
        }
        assert forall|table: Seq<char>| #[trigger] self@.contains_key(table) implies self@[table].namespace
            != namespace@ by {
            let j = choose|j: int|
                0 <= j < self.tables@.len() && (#[trigger] self.tables@[j]).0@ == table;
            assert(self@.contains_pair(self.tables@[j].0@, self.tables@[j].1@));
        }
        None
    }

    /// The blob that a changeset row refers to, or `None` where its table carries no blob
    /// or its blob id is absent or NULL.
    pub fn ref_from_change(&self, change: &RowChange) -> (blob: Result<
        Option<BlobRef>,
        BlobDeclError,
    >)
        ensures
            blob is Ok,
            match blob->Ok_0 {
                Some(b) => self@.contains_key(change.table@) && self@[change.table@].blob_of(
                    change.columns@,
                ) == Some(b@),
                None => self@.contains_key(change.table@) ==> self@[change.table@].blob_of(
                    change.columns@,
                ) is None,
            },
    {
        match self.table(change.table.as_str()) {
            None => Ok(None),
            Some(blob) => Ok(blob.ref_from_row(&change.columns)),
        }
    }

    /// The blob that a changeset row refers to, with the size and the hash that the row
    /// carries.
    pub fn ref_size_hash_from_change(&self, change: &RowChange) -> (download: Result<
        Option<(BlobRef, Option<u64>, Option<String>)>,
        BlobDeclError,
    >)
        ensures
            if !self@.contains_key(change.table@) || self@[change.table@].blob_of(
                change.columns@,
            ) is None {
                download matches Ok(None)
            } else {
                let table = self@[change.table@];
                match table.size_of(change.table@, change.columns@) {
                    Err(fault) => download matches Err(error) && error@ == fault,
                    Ok(size) => download matches Ok(Some((b, s, h))) && {
                        &&& table.blob_of(change.columns@) == Some(b@)
                        &&& s == size
                        &&& optional_text(h) == column_value(change.columns@, table.hash_col)
                    },
                }
            },
    {
        match self.table(change.table.as_str()) {
            None => Ok(None),
            Some(table) => match table.ref_from_row(&change.columns) {
                None => Ok(None),
                Some(blob) => match table.size_from_change(change.table.as_str(), &change.columns) {
                    Err(error) => Err(error),
                    Ok(size) => Ok(Some((blob, size, table.hash_from_change(&change.columns)))),
                },
            },
        }
    }

    /// The blobs that rows refer to, in the order of the rows. Rows of tables that carry no
    /// blob, and rows without a blob id, contribute nothing. Read with every row of every
    /// declared table this is all blobs of the database; with the rows below a root it is
    /// the blobs of that root.
    pub fn refs_in_rows(&self, rows: &Vec<RowChange>) -> (refs: Vec<BlobRef>)
        ensures
            refs@.map_values(|b: BlobRef| b@) == blobs_of_rows(self@, rows@),
    {
        let mut refs: Vec<BlobRef> = Vec::new();
        let mut i: usize = 0;
        assert(rows@.take(0) =~= Seq::<RowChange>::empty());
        assert(refs@.map_values(|b: BlobRef| b@) =~= blobs_of_rows(self@, rows@.take(0)));
        while i < rows.len()
            invariant
                i <= rows.len(),
                refs@.map_values(|b: BlobRef| b@) == blobs_of_rows(self@, rows@.take(i as int)),
            decreases rows.len() - i,
        {
            assert(rows@.take(i + 1).drop_last() =~= rows@.take(i as int));
            assert(rows@.take(i + 1).last() == rows@[i as int]);
            let ghost before = refs@.map_values(|b: BlobRef| b@);
            let found: Option<BlobRef> = match self.table(rows[i].table.as_str()) {
                None => None,
                Some(table) => table.ref_from_row(&rows[i].columns),
            };
            match found {
                None => {},
                Some(blob) => {
                    let ghost added = blob@;
                    refs.push(blob);
                    assert(refs@.map_values(|b: BlobRef| b@) =~= before.push(added));
                },
            }
            i = i + 1;
        }
        assert(rows@.take(rows@.len() as int) =~= rows@);
        refs
    }
}

/// The blobs that rows refer to, in the order of the rows.
pub open spec fn blobs_of_rows(
    decls: Map<Seq<char>, TableBlobView>,
    rows: Seq<RowChange>,
) -> Seq<BlobRefView>
    decreases rows.len(),
{
    if rows.len() == 0 {
        Seq::empty()
    } else {
        let before = blobs_of_rows(decls, rows.drop_last());
        let row = rows.last();
        if decls.contains_key(row.table@) {
            match decls[row.table@].blob_of(row.columns@) {
                Some(blob) => before.push(blob),
                None => before,
            }
        } else {
            before
        }
    }
}

proof fn lemma_resolved_error_stays(
    tables: Seq<SyncedTable>,
    schemas: Seq<Result<Vec<String>, String>>,
    n: int,
)
    requires
        0 <= n <= tables.len(),
        schemas.len() == tables.len(),
        resolved_decls(tables.take(n), schemas.take(n)) is Err,
    ensures
        resolved_decls(tables, schemas) == resolved_decls(tables.take(n), schemas.take(n)),
    decreases tables.len() - n,
{
    if n < tables.len() {
        assert(tables.take(n + 1).drop_last() =~= tables.take(n));
        assert(schemas.take(n + 1).drop_last() =~= schemas.take(n));
        lemma_resolved_error_stays(tables, schemas, n + 1);
    } else {
        assert(tables.take(n) =~= tables);
        assert(schemas.take(n) =~= schemas);
    }
}

fn put_table(tables: &mut Vec<(String, TableBlob)>, name: String, blob: TableBlob)
    requires
        distinct_tables(old(tables)@),
    ensures
        distinct_tables(final(tables)@),
        decl_map(final(tables)@) == decl_map(old(tables)@).insert(name@, blob@),
{
    let mut i: usize = 0;
    while i < tables.len()
        invariant
            i <= tables.len(),
            tables@ == old(tables)@,
            distinct_tables(tables@),
            forall|j: int| 0 <= j < i ==> (#[trigger] tables@[j]).0@ != name@,
        decreases tables.len() - i,
    {
        if same_text(tables[i].0.as_str(), name.as_str()) {
            proof {
                lemma_decl_map_update(tables@, i as int, (name, blob));
            }
            tables.set(i, (name, blob));
            return;
        }
        i = i + 1;
    }
    let ghost before = tables@;
    tables.push((name, blob));
    proof {
        assert(tables@.drop_last() =~= before);
        assert forall|a: int, b: int| 0 <= a < b < tables@.len() implies (
        #[trigger] tables@[a]).0@ != (#[trigger] tables@[b]).0@ by {
            if b == before.len() {
                assert(before[a].0@ != name@);
            } else {
                assert(before[a].0@ != before[b].0@);
            }
        }
    }
}

/// The statement that reads every row of a table.
pub fn all_rows_sql(table: &str) -> (sql: String)
    ensures
        sql@ == "SELECT * FROM "@ + quoted_ident(table@),
{
    "SELECT * FROM ".to_owned().concat(quote_ident(table).as_str())
}

/// The statement that reads the row of a table with a primary key.
pub fn row_sql(table: &str) -> (sql: String)
    ensures
        sql@ == "SELECT * FROM "@ + quoted_ident(table@) + " WHERE id = ?1"@,
{
    "SELECT * FROM ".to_owned().concat(quote_ident(table).as_str()).concat(" WHERE id = ?1")
}

/// The statement that reads one column of the row with a primary key.
pub fn column_on_row_sql(column: &str, table: &str) -> (sql: String)
    ensures
        sql@ == "SELECT "@ + quoted_ident(column@) + " FROM "@ + quoted_ident(table@)
            + " WHERE id = ?1"@,
{
    "SELECT ".to_owned().concat(quote_ident(column).as_str()).concat(" FROM ").concat(
        quote_ident(table).as_str(),
    ).concat(" WHERE id = ?1")
}

impl TableBlob {
    /// The statement that reads the primary key of the row that carries a blob id.
    pub fn pk_carrying_blob_sql(&self, table: &str) -> (sql: String)
        ensures
            sql@ == "SELECT id FROM "@ + quoted_ident(table@) + " WHERE "@ + quoted_ident(
                self@.id_col_name,
            ) + " = ?1"@,
    {
        "SELECT id FROM ".to_owned().concat(quote_ident(table).as_str()).concat(" WHERE ").concat(
            quote_ident(self.id_col_name.as_str()).as_str(),
        ).concat(" = ?1")
    }

    /// The statement that reads one column of the row that carries a blob id.
    pub fn column_carrying_blob_sql(&self, table: &str, column: &str) -> (sql: String)
        ensures
            sql@ == "SELECT "@ + quoted_ident(column@) + " FROM "@ + quoted_ident(table@)
                + " WHERE "@ + quoted_ident(self@.id_col_name) + " = ?1"@,
    {
        "SELECT ".to_owned().concat(quote_ident(column).as_str()).concat(" FROM ").concat(
            quote_ident(table).as_str(),
        ).concat(" WHERE ").concat(quote_ident(self.id_col_name.as_str()).as_str()).concat(
            " = ?1",
        )
    }
}

/// The statement that guards a table against bringing back a blob whose cleanup is under
/// way, for one kind of change.
pub open spec fn cleanup_guard_text(
    kind: Seq<char>,
    event: Seq<char>,
    table: Seq<char>,
    blob: TableBlobView,
    namespace_literal: Seq<char>,
) -> Seq<char> {
    let id = quoted_ident(blob.id_col_name);
    let hash = quoted_ident(blob.hash_col_name);
    "CREATE TEMP TRIGGER "@ + quoted_ident("coven_cleanup_guard_"@ + kind + "_"@ + table) + " "@
        + event + " ON main."@ + quoted_ident(table) + " WHEN NEW."@ + id
        + " IS NOT NULL AND EXISTS (SELECT 1 FROM local_cleanup_intents WHERE namespace = "@
        + namespace_literal + " AND blob_id = NEW."@ + id + "AND content_hash = NEW."@ + hash
        + ") BEGIN SELECT RAISE(ABORT, 'blob local cleanup in progress'); END;"@
}

/// The two guards of a table: for inserts, and for updates of the blob's id or hash.
pub open spec fn cleanup_guard_texts(
    table: Seq<char>,
    blob: TableBlobView,
    namespace_literal: Seq<char>,
) -> (Seq<char>, Seq<char>) {
    (
        cleanup_guard_text("insert"@, "BEFORE INSERT"@, table, blob, namespace_literal),
        cleanup_guard_text(
            "update"@,
            "BEFORE UPDATE OF "@ + quoted_ident(blob.id_col_name) + ", "@ + quoted_ident(
                blob.hash_col_name,
            ),
            table,
            blob,
            namespace_literal,
        ),
    )
}

fn cleanup_guard_sql(
    kind: &str,
    event: &str,
    table: &str,
    blob: &TableBlob,
    namespace_literal: &str,
) -> (sql: String)
    ensures
        sql@ == cleanup_guard_text(kind@, event@, table@, blob@, namespace_literal@),
{
    let id: String = quote_ident(blob.id_col_name.as_str());
    let hash: String = quote_ident(blob.hash_col_name.as_str());
    let trigger: String = "coven_cleanup_guard_".to_owned().concat(kind).concat("_").concat(table);
    "CREATE TEMP TRIGGER ".to_owned().concat(quote_ident(trigger.as_str()).as_str()).concat(
        " ",
    ).concat(event).concat(" ON main.").concat(quote_ident(table).as_str()).concat(
        " WHEN NEW.",
    ).concat(id.as_str()).concat(
        " IS NOT NULL AND EXISTS (SELECT 1 FROM local_cleanup_intents WHERE namespace = ",
    ).concat(namespace_literal).concat(" AND blob_id = NEW.").concat(id.as_str()).concat(
        "AND content_hash = NEW.",
    ).concat(hash.as_str()).concat(
        ") BEGIN SELECT RAISE(ABORT, 'blob local cleanup in progress'); END;",
    )
}

/// The guards of a table, given its namespace as an SQL literal.
pub fn cleanup_guards(table: &str, blob: &TableBlob, namespace_literal: &str) -> (guards: (
    String,
    String,
))
    ensures
        (guards.0@, guards.1@) == cleanup_guard_texts(table@, blob@, namespace_literal@),
{
    let event: String = "BEFORE UPDATE OF ".to_owned().concat(
        quote_ident(blob.id_col_name.as_str()).as_str(),
    ).concat(", ").concat(quote_ident(blob.hash_col_name.as_str()).as_str());
    (
        cleanup_guard_sql("insert", "BEFORE INSERT", table, blob, namespace_literal),
        cleanup_guard_sql("update", event.as_str(), table, blob, namespace_literal),
    )
}

impl BlobDecls {
    /// The declared tables, each with its declaration.
    pub fn declared_tables(&self) -> (tables: &Vec<(String, TableBlob)>)
        ensures
            decl_map(tables@) == self@,
            distinct_tables(tables@),
    {
        proof {
            use_type_invariant(self);
        }
        &self.tables
    }
}

/// A generated cloud key, taken apart.
#[derive(Debug)]
pub struct GeneratedBlobKey {
    pub namespace: String,
    pub uploader: String,
    pub id: String,
    pub generation: String,
}

/// The namespace and the blob id of a generated key. Rows are keyed by these two alone, so
/// who uploaded the blob does not matter.
pub fn hashed_blob_key_parts(key: Option<GeneratedBlobKey>) -> (parts: Option<(String, String)>)
    ensures
        parts == (match key {
            Some(k) => Some((k.namespace, k.id)),
            None => None,
        }),
{
    match key {
        Some(key) => Some((key.namespace, key.id)),
        None => None,
    }
}

/// The namespace and the blob id of a readable key: its first five segments are the
/// namespace, a fixed marker, the uploader, the generation and the id, and the readable
/// path follows.
pub open spec fn plain_key_parts(cloud_key: Seq<char>) -> Option<(Seq<char>, Seq<char>)> {
    let parts = segments(cloud_key, '/');
    if parts.len() >= 6 && parts[1] == ".coven-generations"@ && token_fault(parts[0]) is None
        && token_fault(parts[2]) is None && token_fault(parts[4]) is None && first_fault(
        parts.skip(5),
    ) is None && parts[3].len() == 64 && is_hex_text(parts[3]) {
        Some((parts[0], parts[4]))
    } else {
        None
    }
}

fn is_token(text: &str) -> (yes: bool)
    ensures
        yes == (token_fault(text@) is None),
{
    match validate_path_token(text) {
        Ok(()) => true,
        Err(_) => false,
    }
}

/// Takes a readable key apart, or gives `None` where it does not fit the layout.
pub fn plain_blob_key_parts(cloud_key: &str) -> (parts: Option<(String, String)>)
    ensures
        match parts {
            Some((namespace, id)) => plain_key_parts(cloud_key@) == Some((namespace@, id@)),
            None => plain_key_parts(cloud_key@) is None,
        },
{
    let parts: Vec<String> = split_text(cloud_key, '/');
    assert(parts@.len() == segments(cloud_key@, '/').len());
    if parts.len() < 6 {
        return None;
    }
    let ghost all = texts(parts@);
    assert(all[0] == parts@[0]@ && all[1] == parts@[1]@ && all[2] == parts@[2]@ && all[3]
        == parts@[3]@ && all[4] == parts@[4]@);
    if !same_text(parts[1].as_str(), ".coven-generations") {
        return None;
    }
    if !is_token(parts[0].as_str()) || !is_token(parts[2].as_str()) || !is_token(
        parts[4].as_str(),
    ) {
        return None;
    }
    if first_part_fault(&parts, 5).is_some() {
        return None;
    }
    let generation: Vec<char> = chars_of(parts[3].as_str());
    if generation.len() != 64 || !all_hex_chars(generation.as_slice()) {
        return None;
    }
    Some((parts[0].clone(), parts[4].clone()))
}

/// The namespace and the blob id that a cloud key encodes, in either layout: the generated
/// one where the key has it, else the readable one.
pub fn blob_cloud_key_parts(generated: Option<GeneratedBlobKey>, cloud_key: &str) -> (parts: Option<
    (String, String),
>)
    ensures
        match generated {
            Some(key) => parts == Some((key.namespace, key.id)),
            None => match parts {
                Some((namespace, id)) => plain_key_parts(cloud_key@) == Some((namespace@, id@)),
                None => plain_key_parts(cloud_key@) is None,
            },
        },
{
    match hashed_blob_key_parts(generated) {
        Some(parts) => Some(parts),
        None => plain_blob_key_parts(cloud_key),
    }
}

} // verus!
