//! The decisions behind the app's commands: the statements that change one
//! row or add a column, what a cancel asks the server, how the pager reads
//! its count, and how saved records get their ids.

use vstd::prelude::*;
use crate::db::{
    find_column_exec, bind_of_json, add_column_kw_text, bind_views, cast_text, column_type, placeholder_text, quote_text,
    quoted_text, statement_view, valid_ident, valid_ident_spec, Bind, BindView, ColumnInfo,
    Dialect, QueryResult, TableRef,
};
use crate::json::JsonValue;
use crate::numparse::{is_float_text, is_float_text_exec, parse_i64, parse_i64_exec};
use crate::text::{
    chars_of, dec_nat, is_ascii_alnum, join, join_strings, push_dec_u64, push_replaced_char,
    replace_char, str_eq, views,
};
use crate::valuemap::{has_key, value_of, ValueMap};

verus! {

/// The server's handle for a running statement, so another session can
/// stop it.
#[derive(Debug, Clone, Copy, PartialEq, Eq, Structural)]
pub enum Backend {
    /// backend PID, for `pg_cancel_backend`
    Pg(i32),
    /// connection id, for `KILL QUERY`
    MySql(u64),
}

/// The statement that stops a running query server-side: Postgres cancels
/// the backend whose PID is bound as `$1`, MySQL kills the query of the
/// connection; on any other pairing there is nothing to ask.
pub open spec fn cancel_statement_text(backend: Backend, d: Dialect) -> Option<Seq<char>> {
    match (backend, d) {
        (Backend::Pg(_), Dialect::Pg) => Some("SELECT pg_cancel_backend($1)"@),
        (Backend::MySql(cid), Dialect::MySql) => Some("KILL QUERY "@ + dec_nat(cid as nat)),
        _ => None,
    }
}

/// What to send the server to stop the statement running under `backend`
/// on a pool of dialect `d`.
pub fn cancel_statement(backend: &Backend, d: Dialect) -> (r: Option<String>)
    ensures
        match r {
            Some(s) => cancel_statement_text(*backend, d) == Some(s@),
            None => cancel_statement_text(*backend, d) is None,
        },
{
    match (backend, d) {
        (Backend::Pg(_), Dialect::Pg) => Some(String::from_str("SELECT pg_cancel_backend($1)")),
        (Backend::MySql(cid), Dialect::MySql) => {
            let mut s = String::from_str("KILL QUERY ");
            push_dec_u64(&mut s, *cid);
            Some(s)
        },
        _ => None,
    }
}

// ---------------------------------------------------------------- row keys

/// The primary-key columns of `schema`, in order.
pub open spec fn pk_columns(schema: Seq<ColumnInfo>) -> Seq<ColumnInfo>
    decreases schema.len(),
{
    if schema.len() == 0 {
        seq![]
    } else {
        pk_columns(schema.drop_last()) + (if schema.last().is_pk {
            seq![schema.last()]
        } else {
            seq![]
        })
    }
}

/// The WHERE text that names exactly one row by its key, with parameters
/// numbered from `start`, and the key values it binds; refused when the
/// table has no key, or when the values do not name every key column and
/// nothing else.
pub open spec fn pk_where_spec(
    schema: Seq<ColumnInfo>,
    pk: Seq<(Seq<char>, JsonValue)>,
    d: Dialect,
    start: nat,
) -> Result<(Seq<char>, Seq<BindView>), Seq<char>> {
    let pks = pk_columns(schema);
    if pks.len() == 0 {
        Err("table has no primary key — editing disabled"@)
    } else if pks.len() != pk.len() || exists|i: int|
        0 <= i < pks.len() && !has_key(pk, #[trigger] pks[i].name@) {
        Err("primary key values must name every key column"@)
    } else {
        Ok(
            (
                join(
                    Seq::new(
                        pks.len(),
                        |i: int|
                            quote_text(d, pks[i].name@) + " = "@ + cast_text(
                                d,
                                placeholder_text(d, (start + i) as nat),
                                pks[i].data_type@,
                            ),
                    ),
                    " AND "@,
                ),
                Seq::new(pks.len(), |i: int| bind_of_json(value_of(pk, pks[i].name@))),
            ),
        )
    }
}

/// The primary-key columns of `schema`, by position.
fn pk_indices(schema: &[ColumnInfo]) -> (r: Vec<usize>)
    ensures
        r@.len() == pk_columns(schema@).len(),
        forall|i: int|
            0 <= i < r@.len() ==> r@[i] < schema@.len() && schema@[#[trigger] r@[i] as int]
                == pk_columns(schema@)[i],
{
    let mut r: Vec<usize> = Vec::new();
    let n = schema.len();
    assert(schema@.take(0) =~= Seq::<ColumnInfo>::empty());
    for i in 0..n
        invariant
            n == schema@.len(),
            r@.len() == pk_columns(schema@.take(i as int)).len(),
            forall|k: int|
                0 <= k < r@.len() ==> r@[k] < i && schema@[#[trigger] r@[k] as int] == pk_columns(
                    schema@.take(i as int),
                )[k],
    {
        assert(schema@.take(i + 1).drop_last() =~= schema@.take(i as int));
        if schema[i].is_pk {
            r.push(i);
        }
        assert(pk_columns(schema@.take(i + 1)) == pk_columns(schema@.take(i as int)) + (
        if schema@[i as int].is_pk {
            seq![schema@[i as int]]
        } else {
            seq![]
        }));
    }
    assert(schema@.take(n as int) =~= schema@);
    r
}

/// The WHERE clause that names exactly one row, plus its binds. Every
/// primary key column must be present: a partial key matches many rows.
/// `start` is the first placeholder number, since UPDATE binds its value
/// first.
pub fn pk_where(schema: &[ColumnInfo], pk_values: &ValueMap, d: Dialect, start: usize) -> (r:
    Result<(String, Vec<Bind>), String>)
    requires
        start + schema@.len() <= usize::MAX,
    ensures
        statement_view(r) == pk_where_spec(schema@, pk_values@, d, start as nat),
{
    let pks = pk_indices(schema);
    let ghost pkc = pk_columns(schema@);
    if pks.len() == 0 {
        return Err(String::from_str("table has no primary key — editing disabled"));
    }
    if pks.len() != pk_values.len() {
        return Err(String::from_str("primary key values must name every key column"));
    }
    let k = pks.len();
    for i in 0..k
        invariant
            k == pks@.len(),
            k == pkc.len(),
            pkc == pk_columns(schema@),
            forall|j: int|
                0 <= j < pks@.len() ==> pks@[j] < schema@.len() && schema@[#[trigger] pks@[j] as int]
                    == pkc[j],
            forall|j: int| 0 <= j < i ==> has_key(pk_values@, #[trigger] pkc[j].name@),
    {
        if !pk_values.contains_key(schema[pks[i]].name.as_str()) {
            return Err(String::from_str("primary key values must name every key column"));
        }
    }
    assert(pkc.len() <= schema@.len()) by {
        lemma_pk_columns_len(schema@);
    }
    let mut parts: Vec<String> = Vec::new();
    let mut binds: Vec<Bind> = Vec::new();
    for i in 0..k
        invariant
            k == pks@.len(),
            k == pkc.len(),
            k <= schema@.len(),
            start + schema@.len() <= usize::MAX,
            pkc == pk_columns(schema@),
            forall|j: int|
                0 <= j < pks@.len() ==> pks@[j] < schema@.len() && schema@[#[trigger] pks@[j] as int]
                    == pkc[j],
            forall|j: int| 0 <= j < k ==> has_key(pk_values@, #[trigger] pkc[j].name@),
            views(parts@) == Seq::new(
                i as nat,
                |j: int|
                    quote_text(d, pkc[j].name@) + " = "@ + cast_text(
                        d,
                        placeholder_text(d, (start + j) as nat),
                        pkc[j].data_type@,
                    ),
            ),
            bind_views(binds@) == Seq::new(
                i as nat,
                |j: int| bind_of_json(value_of(pk_values@, pkc[j].name@)),
            ),
    {
        let c = &schema[pks[i]];
        assert(*c == pkc[i as int]);
        let ghost before_p = parts@;
        let ghost before_b = binds@;
        let mut part = d.quote_ident(c.name.as_str());
        part.append(" = ");
        let ph = d.placeholder(start + i);
        let cast = d.cast_ph(ph.as_str(), c.data_type.as_str());
        part.append(cast.as_str());
        let ghost pp = part@;
        parts.push(part);
        let v = pk_values.get(c.name.as_str()).unwrap();
        let b = Bind::from_json(v).unwrap();
        let ghost bb = b@;
        binds.push(b);
        assert(pp == quote_text(d, pkc[i as int].name@) + " = "@ + cast_text(
            d,
            placeholder_text(d, (start + i) as nat),
            pkc[i as int].data_type@,
        ));
        assert(bb == bind_of_json(value_of(pk_values@, pkc[i as int].name@)));
        assert(views(parts@) =~= views(before_p).push(pp));
        assert(bind_views(binds@) =~= bind_views(before_b).push(bb));
        assert(views(parts@) =~= Seq::new(
            (i + 1) as nat,
            |j: int|
                quote_text(d, pkc[j].name@) + " = "@ + cast_text(
                    d,
                    placeholder_text(d, (start + j) as nat),
                    pkc[j].data_type@,
                ),
        ));
        assert(bind_views(binds@) =~= Seq::new(
            (i + 1) as nat,
            |j: int| bind_of_json(value_of(pk_values@, pkc[j].name@)),
        ));
    }
    let w = join_strings(&parts, " AND ");
    Ok((w, binds))
}

proof fn lemma_pk_columns_len(schema: Seq<ColumnInfo>)
    ensures
        pk_columns(schema).len() <= schema.len(),
    decreases schema.len(),
{
    if schema.len() > 0 {
        lemma_pk_columns_len(schema.drop_last());
    }
}


// ---------------------------------------------------------------- row edits

/// `UPDATE` of one cell of the row named by its key: the new value is `$1`,
/// the key values follow it.
pub open spec fn update_spec(
    table: TableRef,
    schema: Seq<ColumnInfo>,
    column: Seq<char>,
    value: JsonValue,
    pk: Seq<(Seq<char>, JsonValue)>,
    d: Dialect,
) -> Result<(Seq<char>, Seq<BindView>), Seq<char>> {
    match column_type(schema, column) {
        None => Err("unknown column: "@ + column),
        Some(dt) => match pk_where_spec(schema, pk, d, 2) {
            Err(e) => Err(e),
            Ok((w, b)) => Ok(
                (
                    "UPDATE "@ + quoted_text(d, table) + " SET "@ + quote_text(d, column) + " = "@
                        + cast_text(d, placeholder_text(d, 1), dt) + " WHERE "@ + w,
                    seq![bind_of_json(value)] + b,
                ),
            ),
        },
    }
}

/// The statement that sets one cell of the row whose key is `pk_values`.
pub fn build_update(
    table: &TableRef,
    schema: &[ColumnInfo],
    column: &str,
    value: &JsonValue,
    pk_values: &ValueMap,
    d: Dialect,
) -> (r: Result<(String, Vec<Bind>), String>)
    requires
        2 + schema@.len() <= usize::MAX,
    ensures
        statement_view(r) == update_spec(*table, schema@, column@, *value, pk_values@, d),
{
    let idx = match find_column_exec(schema, column) {
        Some(i) => i,
        None => {
            let mut e = String::from_str("unknown column: ");
            e.append(column);
            return Err(e);
        },
    };
    let (where_sql, pk_binds) = pk_where(schema, pk_values, d, 2)?;
    let mut sql = String::from_str("UPDATE ");
    let q = table.quoted(d);
    sql.append(q.as_str());
    sql.append(" SET ");
    let c = d.quote_ident(column);
    sql.append(c.as_str());
    sql.append(" = ");
    let ph = d.placeholder(1);
    let cast = d.cast_ph(ph.as_str(), schema[idx].data_type.as_str());
    sql.append(cast.as_str());
    sql.append(" WHERE ");
    sql.append(where_sql.as_str());
    let mut binds: Vec<Bind> = Vec::new();
    binds.push(Bind::from_json(value).unwrap());
    let ghost first = binds@;
    assert(bind_views(first) =~= seq![bind_of_json(*value)]);
    let mut rest = pk_binds;
    let ghost rb = rest@;
    binds.append(&mut rest);
    assert(bind_views(binds@) =~= bind_views(first) + bind_views(rb));
    Ok((sql, binds))
}

/// `DELETE` of the row whose key is `pk_values`.
pub open spec fn delete_spec(
    table: TableRef,
    schema: Seq<ColumnInfo>,
    pk: Seq<(Seq<char>, JsonValue)>,
    d: Dialect,
) -> Result<(Seq<char>, Seq<BindView>), Seq<char>> {
    match pk_where_spec(schema, pk, d, 1) {
        Err(e) => Err(e),
        Ok((w, b)) => Ok(("DELETE FROM "@ + quoted_text(d, table) + " WHERE "@ + w, b)),
    }
}

/// The statement that deletes the row whose key is `pk_values`.
pub fn build_delete(table: &TableRef, schema: &[ColumnInfo], pk_values: &ValueMap, d: Dialect) -> (r:
    Result<(String, Vec<Bind>), String>)
    requires
        1 + schema@.len() <= usize::MAX,
    ensures
        statement_view(r) == delete_spec(*table, schema@, pk_values@, d),
{
    let (where_sql, binds) = pk_where(schema, pk_values, d, 1)?;
    let mut sql = String::from_str("DELETE FROM ");
    let q = table.quoted(d);
    sql.append(q.as_str());
    sql.append(" WHERE ");
    sql.append(where_sql.as_str());
    Ok((sql, binds))
}

/// The quoted columns, placeholders and binds of an INSERT, entry by entry
/// (the nth entry's parameter is `n`); or the first unknown column.
pub open spec fn insert_parts(
    schema: Seq<ColumnInfo>,
    values: Seq<(Seq<char>, JsonValue)>,
    d: Dialect,
) -> Result<(Seq<Seq<char>>, Seq<Seq<char>>, Seq<BindView>), Seq<char>>
    decreases values.len(),
{
    if values.len() == 0 {
        Ok((seq![], seq![], seq![]))
    } else {
        match insert_parts(schema, values.drop_last(), d) {
            Err(e) => Err(e),
            Ok((cols, phs, binds)) => match column_type(schema, values.last().0) {
                None => Err("unknown column: "@ + values.last().0),
                Some(dt) => Ok(
                    (
                        cols.push(quote_text(d, values.last().0)),
                        phs.push(cast_text(d, placeholder_text(d, values.len()), dt)),
                        binds.push(bind_of_json(values.last().1)),
                    ),
                ),
            },
        }
    }
}

/// `INSERT` of one row from its column values; refused when a column is
/// unknown or there is no value at all.
pub open spec fn insert_spec(
    table: TableRef,
    schema: Seq<ColumnInfo>,
    values: Seq<(Seq<char>, JsonValue)>,
    d: Dialect,
) -> Result<(Seq<char>, Seq<BindView>), Seq<char>> {
    match insert_parts(schema, values, d) {
        Err(e) => Err(e),
        Ok((cols, phs, binds)) => if cols.len() == 0 {
            Err("no values"@)
        } else {
            Ok(
                (
                    "INSERT INTO "@ + quoted_text(d, table) + " ("@ + join(cols, ", "@)
                        + ") VALUES ("@ + join(phs, ", "@) + ")"@,
                    binds,
                ),
            )
        },
    }
}

proof fn lemma_insert_parts_err(
    schema: Seq<ColumnInfo>,
    values: Seq<(Seq<char>, JsonValue)>,
    d: Dialect,
    k: int,
)
    requires
        0 <= k <= values.len(),
        insert_parts(schema, values.take(k), d) is Err,
    ensures
        insert_parts(schema, values, d) == insert_parts(schema, values.take(k), d),
    decreases values.len() - k,
{
    if k < values.len() {
        assert(values.take(k + 1).drop_last() =~= values.take(k));
        lemma_insert_parts_err(schema, values, d, k + 1);
    } else {
        assert(values.take(k) =~= values);
    }
}

/// The statement that inserts a row holding `values`.
pub fn build_insert(table: &TableRef, schema: &[ColumnInfo], values: &ValueMap, d: Dialect) -> (r:
    Result<(String, Vec<Bind>), String>)
    ensures
        statement_view(r) == insert_spec(*table, schema@, values@, d),
{
    let entries = values.entries();
    let ghost ev = values@;
    let n = entries.len();
    let mut cols: Vec<String> = Vec::new();
    let mut phs: Vec<String> = Vec::new();
    let mut binds: Vec<Bind> = Vec::new();
    assert(ev.take(0) =~= Seq::<(Seq<char>, JsonValue)>::empty());
    assert(views(cols@) =~= Seq::<Seq<char>>::empty());
    assert(views(phs@) =~= Seq::<Seq<char>>::empty());
    assert(bind_views(binds@) =~= Seq::<BindView>::empty());
    for i in 0..n
        invariant
            n == entries@.len(),
            ev == values@,
            entries@.map_values(|p: (String, JsonValue)| (p.0@, p.1)) == ev,
            insert_parts(schema@, ev.take(i as int), d) == Ok::<
                (Seq<Seq<char>>, Seq<Seq<char>>, Seq<BindView>),
                Seq<char>,
            >((views(cols@), views(phs@), bind_views(binds@))),
    {
        let (col, val) = &entries[i];
        assert(ev[i as int] == (col@, *val));
        assert(ev.take(i + 1).drop_last() =~= ev.take(i as int));
        assert(ev.take(i + 1).last() == ev[i as int]);
        let idx = match find_column_exec(schema, col.as_str()) {
            Some(j) => j,
            None => {
                proof {
                    lemma_insert_parts_err(schema@, ev, d, i + 1);
                }
                let mut e = String::from_str("unknown column: ");
                e.append(col.as_str());
                return Err(e);
            },
        };
        let ghost (c0, p0, b0) = (cols@, phs@, binds@);
        let qc = d.quote_ident(col.as_str());
        cols.push(qc);
        let ph = d.placeholder(i + 1);
        let cast = d.cast_ph(ph.as_str(), schema[idx].data_type.as_str());
        phs.push(cast);
        binds.push(Bind::from_json(val).unwrap());
        assert(views(cols@) =~= views(c0).push(cols@.last()@));
        assert(views(phs@) =~= views(p0).push(phs@.last()@));
        assert(bind_views(binds@) =~= bind_views(b0).push(binds@.last()@));
    }
    assert(ev.take(n as int) =~= ev);
    if cols.len() == 0 {
        return Err(String::from_str("no values"));
    }
    let mut sql = String::from_str("INSERT INTO ");
    let q = table.quoted(d);
    sql.append(q.as_str());
    sql.append(" (");
    let jc = join_strings(&cols, ", ");
    sql.append(jc.as_str());
    sql.append(") VALUES (");
    let jp = join_strings(&phs, ", ");
    sql.append(jp.as_str());
    sql.append(")");
    Ok((sql, binds))
}

// ---------------------------------------------------------------- ddl

/// A character allowed in a new column's type: letters, digits, space,
/// parentheses, comma, underscore and brackets (for array types).
pub open spec fn type_char(c: char) -> bool {
    is_ascii_alnum(c) || c == ' ' || c == '(' || c == ')' || c == ',' || c == '_' || c == '['
        || c == ']'
}

/// Whether a new column's name and type may be interpolated into DDL.
pub open spec fn column_def_check(name: Seq<char>, col_type: Seq<char>) -> Result<(), Seq<char>> {
    if !valid_ident_spec(name) {
        Err("invalid column name"@)
    } else if col_type.len() == 0 || exists|i: int|
        0 <= i < col_type.len() && !type_char(#[trigger] col_type[i]) {
        Err("invalid column type"@)
    } else {
        Ok(())
    }
}

/// Checks a new column's name and type before anything is sent.
pub fn validate_new_column(name: &str, col_type: &str) -> (r: Result<(), String>)
    ensures
        match r {
            Ok(()) => column_def_check(name@, col_type@) is Ok,
            Err(e) => column_def_check(name@, col_type@) matches Err(m) && m == e@,
        },
{
    if !valid_ident(name) {
        return Err(String::from_str("invalid column name"));
    }
    let t = chars_of(col_type);
    let n = t.len();
    if n == 0 {
        return Err(String::from_str("invalid column type"));
    }
    for i in 0..n
        invariant
            n == t@.len(),
            t@ == col_type@,
            valid_ident_spec(name@),
            forall|j: int| 0 <= j < i ==> type_char(#[trigger] t@[j]),
    {
        let c = t[i];
        if !(('a' <= c && c <= 'z') || ('A' <= c && c <= 'Z') || ('0' <= c && c <= '9') || c == ' '
            || c == '(' || c == ')' || c == ',' || c == '_' || c == '[' || c == ']') {
            assert(!type_char(t@[i as int]));
            return Err(String::from_str("invalid column type"));
        }
    }
    Ok(())
}

/// The DEFAULT clause of a new column: none for an absent or empty value,
/// the value as it stands when it reads as a number, else the value as a
/// string literal with its quotes doubled.
pub open spec fn default_clause(default_value: Option<String>) -> Seq<char> {
    match default_value {
        Some(v) => if v@.len() == 0 {
            seq![]
        } else if is_float_text(v@) {
            " DEFAULT "@ + v@
        } else {
            " DEFAULT '"@ + replace_char(v@, '\'', seq!['\'', '\'']) + "'"@
        },
        None => seq![],
    }
}

/// `ALTER TABLE … ADD [COLUMN] name type [NOT NULL] [DEFAULT …]`.
pub open spec fn add_column_text(
    table: TableRef,
    name: Seq<char>,
    col_type: Seq<char>,
    nullable: bool,
    default_value: Option<String>,
    d: Dialect,
) -> Seq<char> {
    "ALTER TABLE "@ + quoted_text(d, table) + " "@ + add_column_kw_text(d) + " "@ + quote_text(
        d,
        name,
    ) + " "@ + col_type + (if nullable {
        seq![]
    } else {
        " NOT NULL"@
    }) + default_clause(default_value)
}

/// The DDL that adds a column. DDL cannot bind parameters, so a default is
/// written as a number when it reads as one and as an escaped string literal
/// otherwise.
pub fn add_column_sql(
    table: &TableRef,
    name: &str,
    col_type: &str,
    nullable: bool,
    default_value: &Option<String>,
    d: Dialect,
) -> (r: String)
    ensures
        r@ == add_column_text(*table, name@, col_type@, nullable, *default_value, d),
{
    let mut sql = String::from_str("ALTER TABLE ");
    let q = table.quoted(d);
    sql.append(q.as_str());
    sql.append(" ");
    sql.append(d.add_column_kw());
    sql.append(" ");
    let n = d.quote_ident(name);
    sql.append(n.as_str());
    sql.append(" ");
    sql.append(col_type);
    if !nullable {
        sql.append(" NOT NULL");
    }
    if let Some(v) = default_value {
        let chars = chars_of(v.as_str());
        if chars.len() > 0 {
            if is_float_text_exec(chars.as_slice()) {
                sql.append(" DEFAULT ");
                sql.append(v.as_str());
            } else {
                sql.append(" DEFAULT '");
                proof {
                    reveal_strlit("''");
                    assert("''"@ =~= seq!['\'', '\'']);
                }
                push_replaced_char(&mut sql, chars.as_slice(), '\'', "''");
                sql.append("'");
            }
        }
    }
    sql
}

// ---------------------------------------------------------------- results

/// The pager's total: the first cell of the first row as an integer, read
/// from its text when it came back as a string, and 0 when there is none.
pub open spec fn count_value(rows: Seq<Vec<JsonValue>>) -> i64 {
    if rows.len() > 0 && rows[0]@.len() > 0 {
        match rows[0]@[0] {
            JsonValue::Int(i) => i,
            JsonValue::Str(s) => match parse_i64(s@) {
                Some(v) => v,
                None => 0,
            },
            _ => 0,
        }
    } else {
        0
    }
}

/// The row count a `SELECT count(*)` handed back.
pub fn count_from_result(result: &QueryResult) -> (n: i64)
    ensures
        n == count_value(result.rows@),
{
    if result.rows.len() == 0 || result.rows[0].len() == 0 {
        return 0;
    }
    match &result.rows[0][0] {
        JsonValue::Int(i) => *i,
        JsonValue::Str(s) => {
            let chars = chars_of(s.as_str());
            match parse_i64_exec(chars.as_slice()) {
                Some(v) => v,
                None => 0,
            }
        },
        _ => 0,
    }
}

// ---------------------------------------------------------------- ids

/// A lower-case hexadecimal digit.
pub open spec fn is_lower_hex(c: char) -> bool {
    ('0' <= c && c <= '9') || ('a' <= c && c <= 'f')
}

/// The hyphenated lower-case text of a random (version 4, RFC 4122 variant)
/// UUID: `xxxxxxxx-xxxx-4xxx-Yxxx-xxxxxxxxxxxx` with `Y` one of `89ab`.
pub open spec fn is_v4_uuid_text(s: Seq<char>) -> bool {
    &&& s.len() == 36
    &&& forall|i: int|
        0 <= i < 36 ==> (if i == 8 || i == 13 || i == 18 || i == 23 {
            #[trigger] s[i] == '-'
        } else {
            is_lower_hex(s[i])
        })
    &&& s[14] == '4'
    &&& (s[19] == '8' || s[19] == '9' || s[19] == 'a' || s[19] == 'b')
}

/// Calls `uuid::Uuid::new_v4` and formats the result with `Display`. The
/// crate sets the version nibble to 4 and the variant bits to RFC 4122, and
/// `Display` writes the hyphenated lower-case form; which random value comes
/// out is left open.
#[verifier::external_body]
fn new_uuid_text() -> (r: String)
    ensures
        is_v4_uuid_text(r@),
{
    uuid::Uuid::new_v4().to_string()
}

/// The id a saved record keeps: its own when it has one, a fresh random
/// UUID when it is empty.
pub fn ensure_id(id: String) -> (r: String)
    ensures
        id@.len() > 0 ==> r@ == id@,
        id@.len() == 0 ==> is_v4_uuid_text(r@),
{
    let chars = chars_of(id.as_str());
    if chars.len() == 0 {
        new_uuid_text()
    } else {
        id
    }
}


/// A password typed into the form counts only when it is not empty.
pub open spec fn typed_password_spec(given: Option<Seq<char>>) -> Option<Seq<char>> {
    match given {
        Some(p) => if p.len() > 0 {
            Some(p)
        } else {
            None
        },
        None => None,
    }
}

/// The password the user typed, if they typed one: an empty field means
/// none, so a stored password is kept or looked up instead.
pub fn typed_password(given: Option<String>) -> (r: Option<String>)
    ensures
        typed_password_spec(
            match given {
                Some(p) => Some(p@),
                None => None,
            },
        ) == match r {
            Some(p) => Some(p@),
            None => None,
        },
{
    match given {
        Some(p) => {
            let c = chars_of(p.as_str());
            if c.len() > 0 {
                Some(p)
            } else {
                None
            }
        },
        None => None,
    }
}

// ---------------------------------------------------------------- export

/// The file formats an export can be written in.
#[derive(Debug, Clone, Copy, PartialEq, Eq, Structural)]
pub enum ExportFormat {
    Csv,
    Json,
}

/// The export format a name selects: `csv` or `json`, anything else
/// refused.
pub fn export_format(format: &str) -> (r: Result<ExportFormat, String>)
    ensures
        format@ == "csv"@ ==> r == Ok::<ExportFormat, String>(ExportFormat::Csv),
        format@ == "json"@ ==> r == Ok::<ExportFormat, String>(ExportFormat::Json),
        format@ != "csv"@ && format@ != "json"@ ==> (r matches Err(e) && e@ == "unknown format: "@
            + format@),
{
    proof {
        reveal_strlit("csv");
        reveal_strlit("json");
        assert("csv"@.len() != "json"@.len());
    }
    if str_eq(format, "csv") {
        Ok(ExportFormat::Csv)
    } else if str_eq(format, "json") {
        Ok(ExportFormat::Json)
    } else {
        let mut e = String::from_str("unknown format: ");
        e.append(format);
        Err(e)
    }
}

} // verus!
