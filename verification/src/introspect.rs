//! Reading the catalog queries' answers: result rows become tables, columns
//! and foreign keys, and composite foreign keys are set aside.

use vstd::prelude::*;
use crate::db::{display_text, Bind, BindView, ColumnInfo, ForeignKey, TableRef};
use crate::json::JsonValue;
use crate::text::str_eq;

verus! {

/// The text of a string cell.
pub open spec fn json_str(v: JsonValue) -> Option<Seq<char>> {
    match v {
        JsonValue::Str(s) => Some(s@),
        _ => None,
    }
}

/// The value of a boolean cell.
pub open spec fn json_bool(v: JsonValue) -> Option<bool> {
    match v {
        JsonValue::Bool(b) => Some(b),
        _ => None,
    }
}

/// An optional string as a value of the specification.
pub open spec fn opt_view(o: Option<String>) -> Option<Seq<char>> {
    match o {
        Some(s) => Some(s@),
        None => None,
    }
}

/// A table as (schema, name).
pub open spec fn table_view(t: TableRef) -> (Option<Seq<char>>, Seq<char>) {
    (opt_view(t.schema), t.name@)
}

pub open spec fn table_views(v: Seq<TableRef>) -> Seq<(Option<Seq<char>>, Seq<char>)> {
    v.map_values(|t: TableRef| table_view(t))
}

/// The table one catalog row names: schema and name from the first two
/// cells when tables are qualified, the name from the first cell when they
/// are not; rows without those strings name nothing.
pub open spec fn row_table(row: Seq<JsonValue>, qualified: bool) -> Option<
    (Option<Seq<char>>, Seq<char>),
> {
    if qualified {
        if row.len() >= 2 && json_str(row[0]) is Some && json_str(row[1]) is Some {
            Some((json_str(row[0]), json_str(row[1]).unwrap()))
        } else {
            None
        }
    } else {
        if row.len() >= 1 && json_str(row[0]) is Some {
            Some((None, json_str(row[0]).unwrap()))
        } else {
            None
        }
    }
}

/// The tables the rows name, in order.
pub open spec fn rows_tables(rows: Seq<Vec<JsonValue>>, qualified: bool) -> Seq<
    (Option<Seq<char>>, Seq<char>),
>
    decreases rows.len(),
{
    if rows.len() == 0 {
        seq![]
    } else {
        rows_tables(rows.drop_last(), qualified) + match row_table(rows.last()@, qualified) {
            Some(t) => seq![t],
            None => seq![],
        }
    }
}

fn cell_str(row: &Vec<JsonValue>, i: usize) -> (r: Option<String>)
    ensures
        match r {
            Some(s) => i < row@.len() && json_str(row@[i as int]) == Some(s@),
            None => !(i < row@.len() && json_str(row@[i as int]) is Some),
        },
{
    if i < row.len() {
        match &row[i] {
            JsonValue::Str(s) => Some(s.clone()),
            _ => None,
        }
    } else {
        None
    }
}

fn cell_bool(row: &Vec<JsonValue>, i: usize) -> (r: Option<bool>)
    requires
        i < row@.len(),
    ensures
        r == json_bool(row@[i as int]),
{
    match &row[i] {
        JsonValue::Bool(b) => Some(*b),
        _ => None,
    }
}

/// The tables named by the rows of a table-listing query.
pub fn tables_from_rows(rows: &Vec<Vec<JsonValue>>, qualified: bool) -> (r: Vec<TableRef>)
    ensures
        table_views(r@) == rows_tables(rows@, qualified),
{
    let mut out: Vec<TableRef> = Vec::new();
    let n = rows.len();
    assert(rows@.take(0) =~= Seq::<Vec<JsonValue>>::empty());
    assert(table_views(out@) =~= Seq::<(Option<Seq<char>>, Seq<char>)>::empty());
    for i in 0..n
        invariant
            n == rows@.len(),
            table_views(out@) == rows_tables(rows@.take(i as int), qualified),
    {
        assert(rows@.take(i + 1).drop_last() =~= rows@.take(i as int));
        let row = &rows[i];
        let ghost before = out@;
        if qualified {
            match (cell_str(row, 0), cell_str(row, 1)) {
                (Some(s), Some(name)) => {
                    out.push(TableRef { schema: Some(s), name });
                    assert(table_views(out@) =~= table_views(before).push(table_view(out@.last())));
                },
                _ => {},
            }
        } else {
            match cell_str(row, 0) {
                Some(name) => {
                    out.push(TableRef { schema: None, name });
                    assert(table_views(out@) =~= table_views(before).push(table_view(out@.last())));
                },
                None => {},
            }
        }
        assert(table_views(out@) =~= rows_tables(rows@.take(i + 1), qualified));
    }
    assert(rows@.take(n as int) =~= rows@);
    out
}

/// A column as (name, type, nullable, primary key).
pub open spec fn column_view(c: ColumnInfo) -> (Seq<char>, Seq<char>, bool, bool) {
    (c.name@, c.data_type@, c.nullable, c.is_pk)
}

pub open spec fn column_views(v: Seq<ColumnInfo>) -> Seq<(Seq<char>, Seq<char>, bool, bool)> {
    v.map_values(|c: ColumnInfo| column_view(c))
}

/// The column one SQL Server catalog row describes: name and type strings,
/// then nullability (a missing flag reads as nullable) and primary-key
/// membership (a missing flag reads as no).
pub open spec fn row_column(row: Seq<JsonValue>) -> Option<(Seq<char>, Seq<char>, bool, bool)> {
    if row.len() >= 4 && json_str(row[0]) is Some && json_str(row[1]) is Some {
        Some(
            (
                json_str(row[0]).unwrap(),
                json_str(row[1]).unwrap(),
                match json_bool(row[2]) {
                    Some(b) => b,
                    None => true,
                },
                match json_bool(row[3]) {
                    Some(b) => b,
                    None => false,
                },
            ),
        )
    } else {
        None
    }
}

pub open spec fn rows_columns(rows: Seq<Vec<JsonValue>>) -> Seq<(Seq<char>, Seq<char>, bool, bool)>
    decreases rows.len(),
{
    if rows.len() == 0 {
        seq![]
    } else {
        rows_columns(rows.drop_last()) + match row_column(rows.last()@) {
            Some(c) => seq![c],
            None => seq![],
        }
    }
}

/// The columns of a table from its SQL Server catalog rows; no rows at all
/// means the table does not exist.
pub fn columns_from_rows(table: &TableRef, rows: &Vec<Vec<JsonValue>>) -> (r: Result<
    Vec<ColumnInfo>,
    String,
>)
    ensures
        rows@.len() == 0 ==> (r matches Err(e) && e@ == "unknown table: "@ + display_text(*table)),
        rows@.len() > 0 ==> (r matches Ok(cols) && column_views(cols@) == rows_columns(rows@)),
{
    let n = rows.len();
    if n == 0 {
        return Err(unknown_table(table));
    }
    let mut out: Vec<ColumnInfo> = Vec::new();
    assert(rows@.take(0) =~= Seq::<Vec<JsonValue>>::empty());
    assert(column_views(out@) =~= Seq::<(Seq<char>, Seq<char>, bool, bool)>::empty());
    for i in 0..n
        invariant
            n == rows@.len(),
            column_views(out@) == rows_columns(rows@.take(i as int)),
    {
        assert(rows@.take(i + 1).drop_last() =~= rows@.take(i as int));
        let row = &rows[i];
        let ghost before = out@;
        if row.len() >= 4 {
            match (cell_str(row, 0), cell_str(row, 1)) {
                (Some(name), Some(data_type)) => {
                    let nullable = match cell_bool(row, 2) {
                        Some(b) => b,
                        None => true,
                    };
                    let is_pk = match cell_bool(row, 3) {
                        Some(b) => b,
                        None => false,
                    };
                    out.push(ColumnInfo { name, data_type, nullable, is_pk });
                    assert(column_views(out@) =~= column_views(before).push(
                        column_view(out@.last()),
                    ));
                },
                _ => {},
            }
        }
        assert(column_views(out@) =~= rows_columns(rows@.take(i + 1)));
    }
    assert(rows@.take(n as int) =~= rows@);
    Ok(out)
}

/// A foreign key as (column, referenced schema, table, column).
pub open spec fn fk_view(f: ForeignKey) -> (Seq<char>, Option<Seq<char>>, Seq<char>, Seq<char>) {
    (f.column@, opt_view(f.ref_schema), f.ref_table@, f.ref_column@)
}

pub open spec fn fk_views(v: Seq<ForeignKey>) -> Seq<
    (Seq<char>, Option<Seq<char>>, Seq<char>, Seq<char>),
> {
    v.map_values(|f: ForeignKey| fk_view(f))
}

/// The foreign key one SQL Server catalog row describes: four strings.
pub open spec fn row_fk(row: Seq<JsonValue>) -> Option<
    (Seq<char>, Option<Seq<char>>, Seq<char>, Seq<char>),
> {
    if row.len() >= 4 && json_str(row[0]) is Some && json_str(row[1]) is Some && json_str(row[2]) is Some
        && json_str(row[3]) is Some {
        Some(
            (
                json_str(row[0]).unwrap(),
                json_str(row[1]),
                json_str(row[2]).unwrap(),
                json_str(row[3]).unwrap(),
            ),
        )
    } else {
        None
    }
}

pub open spec fn rows_fks(rows: Seq<Vec<JsonValue>>) -> Seq<
    (Seq<char>, Option<Seq<char>>, Seq<char>, Seq<char>),
>
    decreases rows.len(),
{
    if rows.len() == 0 {
        seq![]
    } else {
        rows_fks(rows.drop_last()) + match row_fk(rows.last()@) {
            Some(f) => seq![f],
            None => seq![],
        }
    }
}

/// The foreign keys named by SQL Server catalog rows.
pub fn fks_from_rows(rows: &Vec<Vec<JsonValue>>) -> (r: Vec<ForeignKey>)
    ensures
        fk_views(r@) == rows_fks(rows@),
{
    let mut out: Vec<ForeignKey> = Vec::new();
    let n = rows.len();
    assert(rows@.take(0) =~= Seq::<Vec<JsonValue>>::empty());
    assert(fk_views(out@) =~= Seq::<(Seq<char>, Option<Seq<char>>, Seq<char>, Seq<char>)>::empty());
    for i in 0..n
        invariant
            n == rows@.len(),
            fk_views(out@) == rows_fks(rows@.take(i as int)),
    {
        assert(rows@.take(i + 1).drop_last() =~= rows@.take(i as int));
        let row = &rows[i];
        let ghost before = out@;
        if row.len() >= 4 {
            match (cell_str(row, 0), cell_str(row, 1), cell_str(row, 2), cell_str(row, 3)) {
                (Some(column), Some(s), Some(ref_table), Some(ref_column)) => {
                    out.push(ForeignKey { column, ref_schema: Some(s), ref_table, ref_column });
                    assert(fk_views(out@) =~= fk_views(before).push(fk_view(out@.last())));
                },
                _ => {},
            }
        }
        assert(fk_views(out@) =~= rows_fks(rows@.take(i + 1)));
    }
    assert(rows@.take(n as int) =~= rows@);
    out
}

/// The binds of SQL Server's per-table catalog queries: the schema (`dbo`
/// when the table has none) and the table name.
pub open spec fn table_binds_spec(t: TableRef) -> Seq<BindView> {
    seq![
        BindView::Text(
            match t.schema {
                Some(s) => s@,
                None => "dbo"@,
            },
        ),
        BindView::Text(t.name@),
    ]
}

/// The parameters `@P1` (schema) and `@P2` (table) of SQL Server's catalog
/// queries about one table.
pub fn table_binds(t: &TableRef) -> (r: Vec<Bind>)
    ensures
        r@.len() == 2,
        seq![r@[0]@, r@[1]@] == table_binds_spec(*t),
{
    let s = match &t.schema {
        Some(s) => s.clone(),
        None => String::from_str("dbo"),
    };
    let mut r: Vec<Bind> = Vec::new();
    r.push(Bind::Text(s));
    r.push(Bind::Text(t.name.clone()));
    r
}

// ---------------------------------------------------------------- sqlite / mysql keys

/// One column of a foreign key as SQLite's `foreign_key_list` or MySQL's
/// `key_column_usage` lists it: `key` names the constraint, so a key that
/// spans several columns shows up once per column. `ref_column` is `None`
/// where SQLite leaves it to mean the referenced table's primary key.
#[derive(Debug, Clone)]
pub struct FkRow {
    pub key: String,
    pub column: String,
    pub ref_table: String,
    pub ref_column: Option<String>,
}

/// How many rows belong to the constraint named `k`.
pub open spec fn key_count(rows: Seq<FkRow>, k: Seq<char>) -> nat
    decreases rows.len(),
{
    if rows.len() == 0 {
        0
    } else {
        key_count(rows.drop_last(), k) + (if rows.last().key@ == k {
            1nat
        } else {
            0
        })
    }
}

/// The rows among the first `j` of `all` whose constraint has a single
/// column, in order.
pub open spec fn single_column_upto(all: Seq<FkRow>, j: int) -> Seq<FkRow>
    decreases j,
{
    if j <= 0 {
        seq![]
    } else {
        single_column_upto(all, j - 1) + (if key_count(all, all[j - 1].key@) == 1 {
            seq![all[j - 1]]
        } else {
            seq![]
        })
    }
}

fn clone_fk_row(r: &FkRow) -> (c: FkRow)
    ensures
        c == *r,
{
    FkRow {
        key: r.key.clone(),
        column: r.column.clone(),
        ref_table: r.ref_table.clone(),
        ref_column: match &r.ref_column {
            Some(s) => Some(s.clone()),
            None => None,
        },
    }
}

fn count_key(rows: &Vec<FkRow>, k: &String) -> (n: usize)
    ensures
        n == key_count(rows@, k@),
{
    let mut n: usize = 0;
    let len = rows.len();
    assert(rows@.take(0) =~= Seq::<FkRow>::empty());
    for i in 0..len
        invariant
            len == rows@.len(),
            n == key_count(rows@.take(i as int), k@),
            n <= i,
    {
        assert(rows@.take(i + 1).drop_last() =~= rows@.take(i as int));
        if rows[i].key == *k {
            n = n + 1;
        }
    }
    assert(rows@.take(len as int) =~= rows@);
    n
}

/// The rows of single-column foreign keys: one equality filter cannot
/// express a composite key, so the rows of any constraint listed more than
/// once are dropped.
pub fn single_column_fks(rows: &Vec<FkRow>) -> (r: Vec<FkRow>)
    ensures
        r@ == single_column_upto(rows@, rows@.len() as int),
{
    let mut out: Vec<FkRow> = Vec::new();
    let n = rows.len();
    for i in 0..n
        invariant
            n == rows@.len(),
            out@ == single_column_upto(rows@, i as int),
    {
        if count_key(rows, &rows[i].key) == 1 {
            out.push(clone_fk_row(&rows[i]));
        }
        assert(out@ =~= single_column_upto(rows@, i + 1));
    }
    out
}


/// The position of the first primary-key column.
pub open spec fn first_pk(schema: Seq<ColumnInfo>) -> Option<int>
    decreases schema.len(),
{
    if schema.len() == 0 {
        None
    } else {
        match first_pk(schema.drop_last()) {
            Some(i) => Some(i),
            None => if schema.last().is_pk {
                Some(schema.len() - 1)
            } else {
                None
            },
        }
    }
}

proof fn lemma_first_pk_prefix(schema: Seq<ColumnInfo>, k: int)
    requires
        0 <= k <= schema.len(),
        first_pk(schema.take(k)) is Some,
    ensures
        first_pk(schema) == first_pk(schema.take(k)),
    decreases schema.len() - k,
{
    if k < schema.len() {
        assert(schema.take(k + 1).drop_last() =~= schema.take(k));
        lemma_first_pk_prefix(schema, k + 1);
    } else {
        assert(schema.take(k) =~= schema);
    }
}

/// The name of a table's first primary-key column: what SQLite means by a
/// foreign key that names no referenced column.
pub fn first_primary_key(schema: &[ColumnInfo]) -> (r: Option<String>)
    ensures
        match r {
            Some(n) => first_pk(schema@) matches Some(i) && n@ == schema@[i].name@,
            None => first_pk(schema@) is None,
        },
{
    let n = schema.len();
    assert(schema@.take(0) =~= Seq::<ColumnInfo>::empty());
    for i in 0..n
        invariant
            n == schema@.len(),
            first_pk(schema@.take(i as int)) is None,
    {
        assert(schema@.take(i + 1).drop_last() =~= schema@.take(i as int));
        if schema[i].is_pk {
            proof {
                lemma_first_pk_prefix(schema@, i + 1);
            }
            return Some(schema[i].name.clone());
        }
    }
    assert(schema@.take(n as int) =~= schema@);
    None
}


// ---------------------------------------------------------------- per-engine columns

/// The error for a table the catalog does not know.
pub fn unknown_table(table: &TableRef) -> (e: String)
    ensures
        e@ == "unknown table: "@ + display_text(*table),
{
    let mut e = String::from_str("unknown table: ");
    let t = table.display_name();
    e.append(t.as_str());
    e
}

/// A column as SQLite's `table_info` pragma lists it: nullable unless its
/// `notnull` flag is set, part of the key when its `pk` position is
/// positive.
pub fn sqlite_column(name: String, data_type: String, notnull: i64, pk: i64) -> (c: ColumnInfo)
    ensures
        c.name == name,
        c.data_type == data_type,
        c.nullable == (notnull == 0),
        c.is_pk == (pk > 0),
{
    ColumnInfo { name, data_type, nullable: notnull == 0, is_pk: pk > 0 }
}

/// A column as MySQL's `information_schema.columns` lists it: nullable when
/// `is_nullable` reads `YES`, part of the key when `column_key` reads `PRI`.
pub fn mysql_column(name: String, data_type: String, is_nullable: &str, column_key: &str) -> (c:
    ColumnInfo)
    ensures
        c.name == name,
        c.data_type == data_type,
        c.nullable == (is_nullable@ == "YES"@),
        c.is_pk == (column_key@ == "PRI"@),
{
    ColumnInfo {
        name,
        data_type,
        nullable: str_eq(is_nullable, "YES"),
        is_pk: str_eq(column_key, "PRI"),
    }
}

/// The Rust type a result cell is read as, chosen by the column's type
/// name; `Text` is the fallback for text-ish and unknown types.
#[derive(Debug, Clone, Copy, PartialEq, Eq, Structural)]
pub enum Decoder {
    Bool,
    I8,
    I16,
    I32,
    I64,
    U8,
    U16,
    U32,
    U64,
    F32,
    F64,
    Decimal,
    Uuid,
    Json,
    DateTime,
    DateTimeUtc,
    Date,
    Time,
    Bytes,
    Text,
}

/// How Postgres columns are read, by the type name the driver reports.
pub open spec fn pg_decoder_spec(t: Seq<char>) -> Decoder {
    if t == "INT2"@ {
        Decoder::I16
    } else if t == "INT4"@ {
        Decoder::I32
    } else if t == "INT8"@ {
        Decoder::I64
    } else if t == "FLOAT4"@ {
        Decoder::F32
    } else if t == "FLOAT8"@ {
        Decoder::F64
    } else if t == "NUMERIC"@ {
        Decoder::Decimal
    } else if t == "BOOL"@ {
        Decoder::Bool
    } else if t == "UUID"@ {
        Decoder::Uuid
    } else if t == "JSON"@ || t == "JSONB"@ {
        Decoder::Json
    } else if t == "TIMESTAMP"@ {
        Decoder::DateTime
    } else if t == "TIMESTAMPTZ"@ {
        Decoder::DateTimeUtc
    } else if t == "DATE"@ {
        Decoder::Date
    } else if t == "TIME"@ {
        Decoder::Time
    } else if t == "BYTEA"@ {
        Decoder::Bytes
    } else {
        Decoder::Text
    }
}

/// How a Postgres column of the reported type is read.
pub fn pg_decoder(column_type_name: &str) -> (r: Decoder)
    ensures
        r == pg_decoder_spec(column_type_name@),
{
    let t = column_type_name;
    if str_eq(t, "INT2") {
        Decoder::I16
    } else if str_eq(t, "INT4") {
        Decoder::I32
    } else if str_eq(t, "INT8") {
        Decoder::I64
    } else if str_eq(t, "FLOAT4") {
        Decoder::F32
    } else if str_eq(t, "FLOAT8") {
        Decoder::F64
    } else if str_eq(t, "NUMERIC") {
        Decoder::Decimal
    } else if str_eq(t, "BOOL") {
        Decoder::Bool
    } else if str_eq(t, "UUID") {
        Decoder::Uuid
    } else if str_eq(t, "JSON") || str_eq(t, "JSONB") {
        Decoder::Json
    } else if str_eq(t, "TIMESTAMP") {
        Decoder::DateTime
    } else if str_eq(t, "TIMESTAMPTZ") {
        Decoder::DateTimeUtc
    } else if str_eq(t, "DATE") {
        Decoder::Date
    } else if str_eq(t, "TIME") {
        Decoder::Time
    } else if str_eq(t, "BYTEA") {
        Decoder::Bytes
    } else {
        Decoder::Text
    }
}

/// How MySQL columns are read, by the type name the driver reports; the
/// unsigned integer types get the unsigned Rust type that fits them.
pub open spec fn mysql_decoder_spec(t: Seq<char>) -> Decoder {
    if t == "BOOLEAN"@ {
        Decoder::Bool
    } else if t == "TINYINT"@ {
        Decoder::I8
    } else if t == "SMALLINT"@ {
        Decoder::I16
    } else if t == "INT"@ || t == "MEDIUMINT"@ {
        Decoder::I32
    } else if t == "BIGINT"@ {
        Decoder::I64
    } else if t == "TINYINT UNSIGNED"@ {
        Decoder::U8
    } else if t == "SMALLINT UNSIGNED"@ {
        Decoder::U16
    } else if t == "INT UNSIGNED"@ || t == "MEDIUMINT UNSIGNED"@ {
        Decoder::U32
    } else if t == "BIGINT UNSIGNED"@ {
        Decoder::U64
    } else if t == "FLOAT"@ {
        Decoder::F32
    } else if t == "DOUBLE"@ {
        Decoder::F64
    } else if t == "DECIMAL"@ {
        Decoder::Decimal
    } else if t == "JSON"@ {
        Decoder::Json
    } else if t == "DATETIME"@ || t == "TIMESTAMP"@ {
        Decoder::DateTime
    } else if t == "DATE"@ {
        Decoder::Date
    } else if t == "TIME"@ {
        Decoder::Time
    } else if t == "BLOB"@ || t == "TINYBLOB"@ || t == "MEDIUMBLOB"@ || t == "LONGBLOB"@ || t
        == "BINARY"@ || t == "VARBINARY"@ {
        Decoder::Bytes
    } else {
        Decoder::Text
    }
}

/// How a MySQL column of the reported type is read.
pub fn mysql_decoder(column_type_name: &str) -> (r: Decoder)
    ensures
        r == mysql_decoder_spec(column_type_name@),
{
    let t = column_type_name;
    if str_eq(t, "BOOLEAN") {
        Decoder::Bool
    } else if str_eq(t, "TINYINT") {
        Decoder::I8
    } else if str_eq(t, "SMALLINT") {
        Decoder::I16
    } else if str_eq(t, "INT") || str_eq(t, "MEDIUMINT") {
        Decoder::I32
    } else if str_eq(t, "BIGINT") {
        Decoder::I64
    } else if str_eq(t, "TINYINT UNSIGNED") {
        Decoder::U8
    } else if str_eq(t, "SMALLINT UNSIGNED") {
        Decoder::U16
    } else if str_eq(t, "INT UNSIGNED") || str_eq(t, "MEDIUMINT UNSIGNED") {
        Decoder::U32
    } else if str_eq(t, "BIGINT UNSIGNED") {
        Decoder::U64
    } else if str_eq(t, "FLOAT") {
        Decoder::F32
    } else if str_eq(t, "DOUBLE") {
        Decoder::F64
    } else if str_eq(t, "DECIMAL") {
        Decoder::Decimal
    } else if str_eq(t, "JSON") {
        Decoder::Json
    } else if str_eq(t, "DATETIME") || str_eq(t, "TIMESTAMP") {
        Decoder::DateTime
    } else if str_eq(t, "DATE") {
        Decoder::Date
    } else if str_eq(t, "TIME") {
        Decoder::Time
    } else if str_eq(t, "BLOB") || str_eq(t, "TINYBLOB") || str_eq(t, "MEDIUMBLOB") || str_eq(
        t,
        "LONGBLOB",
    ) || str_eq(t, "BINARY") || str_eq(t, "VARBINARY") {
        Decoder::Bytes
    } else {
        Decoder::Text
    }
}

} // verus!
