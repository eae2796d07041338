//! What holds of the SQL the library writes, over all inputs: a quoted name
//! reads back as itself and cannot be broken out of, a LIKE pattern built
//! from a value matches that value literally, user values never reach the
//! statement text, and the count, page and key rules the builders share.

use vstd::prelude::*;
use crate::commands::{column_def_check, default_clause, pk_columns, pk_where_spec, update_spec};
use crate::db::{
    ForeignKey, connect_plan_ok, is_fetch_spec, ConnectPlan,
    bind_for_column, cast_text, close_quote, column_type, find_column, op_sql, Sort, count_spec,
    escape_like_text, filter_clause, ilike_text, in_holes, in_items, is_pattern_op,
    is_wrapping_op, open_quote, page_text,
    pattern_value, placeholder_text, quote_text, quoted_text, select_spec, text_type_text,
    where_parts, where_spec, where_text, BindView, ColumnInfo, Dialect, Filter, TableRef,
};
use crate::introspect::{fk_views, rows_fks, table_view};
use crate::json::JsonValue;
use crate::meta::Connection;
use crate::numparse::{all_digits, digits_value, is_float_text, parse_i64, strip_sign};
use crate::text::{
    contains, dec_int, dec_nat, digit_char, is_ascii_digit, is_ws, join, leading_ws, lemma_leading_ws,
    lower, lower_char, occurs_at, replace_char, replace_str, starts_with, trim_start,
};
use crate::valuemap::has_key;

verus! {

// ---------------------------------------------------------------- quoting

/// `s` in `open … close` quotes, each `close` inside written twice.
pub open spec fn quote_with(open: char, close: char, s: Seq<char>) -> Seq<char> {
    seq![open] + replace_char(s, close, seq![close, close]) + seq![close]
}

/// Reads the body of a quoted token: a doubled `close` stands for one, a
/// lone `close` ends the token. Gives the text read and how many characters
/// the body and its closing quote took.
pub open spec fn scan_body(s: Seq<char>, close: char) -> Option<(Seq<char>, nat)>
    decreases s.len(),
{
    if s.len() == 0 {
        None
    } else if s[0] == close {
        if s.len() >= 2 && s[1] == close {
            match scan_body(s.skip(2), close) {
                Some((t, k)) => Some((seq![close] + t, k + 2)),
                None => None,
            }
        } else {
            Some((seq![], 1))
        }
    } else {
        match scan_body(s.drop_first(), close) {
            Some((t, k)) => Some((seq![s[0]] + t, k + 1)),
            None => None,
        }
    }
}

/// Reads one quoted token at the start of `s`, as SQL reads a quoted
/// identifier or string literal: the text it stands for and its length.
pub open spec fn scan_quoted(s: Seq<char>, open: char, close: char) -> Option<(Seq<char>, nat)> {
    if s.len() > 0 && s[0] == open {
        match scan_body(s.drop_first(), close) {
            Some((t, k)) => Some((t, k + 1)),
            None => None,
        }
    } else {
        None
    }
}

proof fn lemma_replace_char_front(c: char, s: Seq<char>, q: char, r: Seq<char>)
    ensures
        replace_char(seq![c] + s, q, r) == (if c == q {
            r
        } else {
            seq![c]
        }) + replace_char(s, q, r),
    decreases s.len(),
{
    if s.len() == 0 {
        assert((seq![c] + s).drop_last() =~= Seq::<char>::empty());
        assert(replace_char(Seq::<char>::empty(), q, r) =~= Seq::<char>::empty());
        assert(replace_char(seq![c] + s, q, r) =~= (if c == q {
            r
        } else {
            seq![c]
        }) + replace_char(s, q, r));
    } else {
        lemma_replace_char_front(c, s.drop_last(), q, r);
        assert((seq![c] + s).drop_last() =~= seq![c] + s.drop_last());
        assert((seq![c] + s).last() == s.last());
        assert(replace_char(seq![c] + s, q, r) =~= (if c == q {
            r
        } else {
            seq![c]
        }) + replace_char(s, q, r));
    }
}

proof fn lemma_scan_body(s: Seq<char>, close: char, rest: Seq<char>)
    requires
        rest.len() == 0 || rest[0] != close,
    ensures
        scan_body(replace_char(s, close, seq![close, close]) + seq![close] + rest, close) == Some(
            (s, (replace_char(s, close, seq![close, close]).len() + 1) as nat),
        ),
    decreases s.len(),
{
    let body = replace_char(s, close, seq![close, close]);
    let p = body + seq![close] + rest;
    if s.len() == 0 {
        assert(body =~= Seq::<char>::empty());
        assert(p =~= seq![close] + rest);
        assert(p[0] == close);
        if p.len() >= 2 {
            assert(p[1] == rest[0]);
        }
    } else {
        let c = s[0];
        let t = s.drop_first();
        assert(s =~= seq![c] + t);
        lemma_replace_char_front(c, t, close, seq![close, close]);
        lemma_scan_body(t, close, rest);
        let tb = replace_char(t, close, seq![close, close]);
        if c == close {
            assert(p =~= seq![close, close] + (tb + seq![close] + rest));
            assert(p.skip(2) =~= tb + seq![close] + rest);
            assert(scan_body(p, close) == Some((seq![close] + t, (tb.len() + 3) as nat)));
        } else {
            assert(p =~= seq![c] + (tb + seq![close] + rest));
            assert(p.drop_first() =~= tb + seq![close] + rest);
        }
    }
}


proof fn lemma_scan_quoted(open: char, close: char, s: Seq<char>, rest: Seq<char>)
    requires
        rest.len() == 0 || rest[0] != close,
    ensures
        scan_quoted(quote_with(open, close, s) + rest, open, close) == Some(
            (s, quote_with(open, close, s).len()),
        ),
{
    let body = replace_char(s, close, seq![close, close]);
    lemma_scan_body(s, close, rest);
    let p = quote_with(open, close, s) + rest;
    assert(p =~= seq![open] + (body + seq![close] + rest));
    assert(p.drop_first() =~= body + seq![close] + rest);
}

/// A quoted identifier reads back, as SQL reads it, as exactly the name it
/// quotes, and it ends exactly at its own closing quote: nothing in the name
/// can close it early, so whatever follows stays outside it.
pub proof fn quoted_identifier_reads_back(d: Dialect, name: Seq<char>, rest: Seq<char>)
    requires
        rest.len() == 0 || rest[0] != close_quote(d),
    ensures
        scan_quoted(quote_text(d, name) + rest, open_quote(d), close_quote(d)) == Some(
            (name, quote_text(d, name).len()),
        ),
{
    assert(quote_text(d, name) == quote_with(open_quote(d), close_quote(d), name));
    lemma_scan_quoted(open_quote(d), close_quote(d), name, rest);
}

/// Two tables quote to the same SQL only when they are the same table:
/// a schema and a name that contain dots or quotes cannot pass for another
/// pair, and a qualified table never passes for an unqualified one.
pub proof fn quoted_tables_are_distinct(d: Dialect, a: TableRef, b: TableRef)
    requires
        quoted_text(d, a) == quoted_text(d, b),
    ensures
        table_view(a) == table_view(b),
{
    reveal_strlit(".");
    let c = close_quote(d);
    let empty = Seq::<char>::empty();
    assert(c != '.');
    match (a.schema, b.schema) {
        (Some(sa), Some(sb)) => {
            let ra = "."@ + quote_text(d, a.name@);
            let rb = "."@ + quote_text(d, b.name@);
            quoted_identifier_reads_back(d, sa@, ra);
            quoted_identifier_reads_back(d, sb@, rb);
            assert(quoted_text(d, a) =~= quote_text(d, sa@) + ra);
            assert(quoted_text(d, b) =~= quote_text(d, sb@) + rb);
            let k = quote_text(d, sa@).len();
            assert(sa@ == sb@);
            assert(quoted_text(d, a).skip(k as int + 1) =~= quote_text(d, a.name@) + empty);
            assert(quoted_text(d, b).skip(k as int + 1) =~= quote_text(d, b.name@) + empty);
            quoted_identifier_reads_back(d, a.name@, empty);
            quoted_identifier_reads_back(d, b.name@, empty);
        },
        (None, None) => {
            quoted_identifier_reads_back(d, a.name@, empty);
            quoted_identifier_reads_back(d, b.name@, empty);
            assert(quote_text(d, a.name@) + empty =~= quote_text(d, a.name@));
            assert(quote_text(d, b.name@) + empty =~= quote_text(d, b.name@));
        },
        (Some(sa), None) => {
            let ra = "."@ + quote_text(d, a.name@);
            quoted_identifier_reads_back(d, sa@, ra);
            quoted_identifier_reads_back(d, b.name@, empty);
            assert(quoted_text(d, a) =~= quote_text(d, sa@) + ra);
            assert(quote_text(d, b.name@) + empty =~= quote_text(d, b.name@));
        },
        (None, Some(sb)) => {
            let rb = "."@ + quote_text(d, b.name@);
            quoted_identifier_reads_back(d, sb@, rb);
            quoted_identifier_reads_back(d, a.name@, empty);
            assert(quoted_text(d, b) =~= quote_text(d, sb@) + rb);
            assert(quote_text(d, a.name@) + empty =~= quote_text(d, a.name@));
        },
    }
}


// ---------------------------------------------------------------- LIKE

/// The element of a LIKE pattern that matches any one character (`_`).
/// Elements are integers: a literal character is its code point, and the
/// two wildcards are negative.
pub open spec fn any_one() -> int {
    -1
}

/// The element of a LIKE pattern that matches any run of characters (`%`).
pub open spec fn any_run() -> int {
    -2
}

/// How a LIKE pattern with `ESCAPE '!'` reads: `!` makes the next character
/// literal, `%` and `_` are wildcards, anything else is itself; a trailing
/// lone `!` is an error.
pub open spec fn like_tokens(p: Seq<char>) -> Option<Seq<int>>
    decreases p.len(),
{
    if p.len() == 0 {
        Some(seq![])
    } else if p[0] == '!' {
        if p.len() < 2 {
            None
        } else {
            match like_tokens(p.skip(2)) {
                Some(t) => Some(seq![p[1] as int] + t),
                None => None,
            }
        }
    } else if p[0] == '%' {
        match like_tokens(p.drop_first()) {
            Some(t) => Some(seq![any_run()] + t),
            None => None,
        }
    } else if p[0] == '_' {
        match like_tokens(p.drop_first()) {
            Some(t) => Some(seq![any_one()] + t),
            None => None,
        }
    } else {
        match like_tokens(p.drop_first()) {
            Some(t) => Some(seq![p[0] as int] + t),
            None => None,
        }
    }
}

/// The pattern that matches exactly `v`, character by character.
pub open spec fn literal_tokens(v: Seq<char>) -> Seq<int>
    decreases v.len(),
{
    if v.len() == 0 {
        seq![]
    } else {
        seq![v[0] as int] + literal_tokens(v.drop_first())
    }
}

proof fn lemma_escape_tokens(v: Seq<char>, tail: Seq<char>)
    ensures
        like_tokens(escape_like_text(v) + tail) == match like_tokens(tail) {
            Some(t) => Some(literal_tokens(v) + t),
            None => None,
        },
    decreases v.len(),
{
    if v.len() == 0 {
        assert(escape_like_text(v) =~= Seq::<char>::empty());
        assert(escape_like_text(v) + tail =~= tail);

        match like_tokens(tail) {
            Some(t) => {
                assert(literal_tokens(v) + t =~= t);
            },
            None => {},
        }
    } else {
        let c = v[0];
        let r = v.drop_first();
        lemma_escape_tokens(r, tail);
        let rest = escape_like_text(r) + tail;
        let p = escape_like_text(v) + tail;
        assert(literal_tokens(v) == seq![c as int] + literal_tokens(r));
        if c == '!' || c == '%' || c == '_' {
            assert(p =~= seq!['!', c] + rest);
            assert(p.skip(2) =~= rest);
        } else {
            assert(p =~= seq![c] + rest);
            assert(p.drop_first() =~= rest);
        }
        match like_tokens(tail) {
            Some(t) => {
                assert(seq![c as int] + (literal_tokens(r) + t) =~= literal_tokens(v)
                    + t);
            },
            None => {},
        }
    }
}

/// The patterns that `contains`, `startswith` and `endswith` build match the
/// user's value literally: every `%`, `_` and `!` the user typed is an
/// escaped character, and the only wildcards are the `%` the operator adds.
pub proof fn wrapped_patterns_match_the_value_literally(v: Seq<char>)
    ensures
        like_tokens(pattern_value("contains"@, v)) == Some(
            seq![any_run()] + literal_tokens(v) + seq![any_run()],
        ),
        like_tokens(pattern_value("startswith"@, v)) == Some(
            literal_tokens(v) + seq![any_run()],
        ),
        like_tokens(pattern_value("endswith"@, v)) == Some(
            seq![any_run()] + literal_tokens(v),
        ),
{
    reveal_strlit("%");
    reveal_strlit("contains");
    reveal_strlit("startswith");
    reveal_strlit("endswith");
    let pct = seq!['%'];
    let empty = Seq::<char>::empty();
    assert(like_tokens(empty) == Some(Seq::<int>::empty()));
    assert(pct.drop_first() =~= empty);
    assert(like_tokens(pct) == Some(seq![any_run()]));
    lemma_escape_tokens(v, pct);
    lemma_escape_tokens(v, empty);
    assert(literal_tokens(v) + Seq::<int>::empty() =~= literal_tokens(v));
    assert(escape_like_text(v) + empty =~= escape_like_text(v));
    assert("contains"@.len() == 8);
    assert("startswith"@.len() == 10);
    assert("endswith"@.len() == 8);
    assert("contains"@[0] != "endswith"@[0]);
    assert(like_tokens(escape_like_text(v) + pct) == Some(literal_tokens(v) + seq![any_run()]));
    assert(pattern_value("startswith"@, v) == escape_like_text(v) + pct);
    assert(pattern_value("endswith"@, v) == pct + escape_like_text(v));
    // contains
    let c = pct + escape_like_text(v) + pct;
    assert(pattern_value("contains"@, v) == c);
    assert(c[0] == '%');
    assert(c =~= seq!['%'] + (escape_like_text(v) + pct));
    assert(c.drop_first() =~= escape_like_text(v) + pct);
    assert(seq![any_run()] + (literal_tokens(v) + seq![any_run()]) =~= seq![
        any_run(),
    ] + literal_tokens(v) + seq![any_run()]);
    // endswith
    let e = pct + escape_like_text(v);
    assert(e.drop_first() =~= escape_like_text(v) + empty);
}


// ---------------------------------------------------------------- binding

/// Two filters of the same shape: the same column and operator, and for an
/// IN list as many values; what the user typed may differ in any other way.
pub open spec fn same_shape(a: Filter, b: Filter) -> bool {
    &&& a.column@ == b.column@
    &&& a.op@ == b.op@
    &&& (a.op@ == "in"@ || a.op@ == "notin"@) ==> in_items(a.value@).len() == in_items(
        b.value@,
    ).len()
}

/// Filter lists of the same shape, filter by filter.
pub open spec fn same_shapes(a: Seq<Filter>, b: Seq<Filter>) -> bool {
    a.len() == b.len() && forall|i: int| 0 <= i < a.len() ==> same_shape(#[trigger] a[i], b[i])
}

proof fn lemma_clause_shape(schema: Seq<ColumnInfo>, a: Filter, b: Filter, d: Dialect, n: nat)
    requires
        same_shape(a, b),
    ensures
        match (filter_clause(schema, a, d, n), filter_clause(schema, b, d, n)) {
            (Ok((pa, ba)), Ok((pb, bb))) => pa == pb && ba.len() == bb.len(),
            (Err(ea), Err(eb)) => ea == eb,
            _ => false,
        },
{
}

proof fn lemma_parts_shape(schema: Seq<ColumnInfo>, a: Seq<Filter>, b: Seq<Filter>, d: Dialect)
    requires
        same_shapes(a, b),
    ensures
        match (where_parts(schema, a, d), where_parts(schema, b, d)) {
            (Ok((pa, ba)), Ok((pb, bb))) => pa == pb && ba.len() == bb.len(),
            (Err(ea), Err(eb)) => ea == eb,
            _ => false,
        },
    decreases a.len(),
{
    if a.len() > 0 {
        let a0 = a.drop_last();
        let b0 = b.drop_last();
        assert(same_shapes(a0, b0)) by {
            assert forall|i: int| 0 <= i < a0.len() implies same_shape(#[trigger] a0[i], b0[i]) by {
                assert(a0[i] == a[i] && b0[i] == b[i]);
            }
        }
        lemma_parts_shape(schema, a0, b0, d);
        assert(same_shape(a[a.len() - 1], b[b.len() - 1]));
        match (where_parts(schema, a0, d), where_parts(schema, b0, d)) {
            (Ok((pa, ba)), Ok((pb, bb))) => {
                lemma_clause_shape(schema, a.last(), b.last(), d, ba.len());
            },
            _ => {},
        }
    }
}

/// What the user types as filter values never becomes statement text: two
/// filter lists of the same shape give the same WHERE clause, with as many
/// binds, or fail with the same error. The values only ever travel as
/// bound parameters.
pub proof fn filter_values_never_reach_the_sql(
    schema: Seq<ColumnInfo>,
    a: Seq<Filter>,
    b: Seq<Filter>,
    d: Dialect,
)
    requires
        same_shapes(a, b),
    ensures
        match (where_spec(schema, a, d), where_spec(schema, b, d)) {
            (Ok((wa, ba)), Ok((wb, bb))) => wa == wb && ba.len() == bb.len(),
            (Err(ea), Err(eb)) => ea == eb,
            _ => false,
        },
{
    lemma_parts_shape(schema, a, b, d);
}

// ---------------------------------------------------------------- count and page

/// The pager's count runs under exactly the filters of the rows it counts:
/// whenever the row query can be built, the count query can too, with the
/// same binds; and when the count is refused, so is the row query, with the
/// same error.
pub proof fn count_matches_select(
    table: TableRef,
    schema: Seq<ColumnInfo>,
    filters: Seq<Filter>,
    sort: Option<crate::db::Sort>,
    limit: i64,
    offset: i64,
    d: Dialect,
)
    ensures
        select_spec(table, schema, filters, sort, limit, offset, d) matches Ok((_, b)) ==> (
        count_spec(table, schema, filters, d) matches Ok((_, cb)) && cb == b),
        count_spec(table, schema, filters, d) matches Err(e) ==> select_spec(
            table,
            schema,
            filters,
            sort,
            limit,
            offset,
            d,
        ) == Err::<(Seq<char>, Seq<BindView>), Seq<char>>(e),
{
}

/// `limit <= 0` means the whole filtered set, whatever the offset: the
/// statement is the one for limit 0 and offset 0. Past the cap of 10 000 a
/// limit is the cap, and a negative offset is 0.
pub proof fn page_bounds(
    table: TableRef,
    schema: Seq<ColumnInfo>,
    filters: Seq<Filter>,
    sort: Option<crate::db::Sort>,
    limit: i64,
    offset: i64,
    d: Dialect,
)
    ensures
        limit <= 0 ==> select_spec(table, schema, filters, sort, limit, offset, d) == select_spec(
            table,
            schema,
            filters,
            sort,
            0,
            0,
            d,
        ),
        limit > 10000 ==> select_spec(table, schema, filters, sort, limit, offset, d)
            == select_spec(table, schema, filters, sort, 10000, offset, d),
        offset < 0 ==> select_spec(table, schema, filters, sort, limit, offset, d) == select_spec(
            table,
            schema,
            filters,
            sort,
            limit,
            0,
            d,
        ),
{
}


// ---------------------------------------------------------------- row keys

/// An edit names its row by the whole primary key. A table without one is
/// refused, so is a key that leaves out a key column, and a clause is built
/// only when the values name every key column and nothing else. An UPDATE
/// binds the new value first and then one value per key column.
pub proof fn edits_name_the_whole_key(
    table: TableRef,
    schema: Seq<ColumnInfo>,
    column: Seq<char>,
    value: JsonValue,
    pk: Seq<(Seq<char>, JsonValue)>,
    d: Dialect,
    start: nat,
)
    ensures
        pk_columns(schema).len() == 0 ==> pk_where_spec(schema, pk, d, start) is Err,
        (exists|i: int|
            0 <= i < pk_columns(schema).len() && !has_key(pk, #[trigger] pk_columns(schema)[i].name@))
            ==> pk_where_spec(schema, pk, d, start) is Err,
        pk_where_spec(schema, pk, d, start) is Ok ==> {
            &&& pk.len() == pk_columns(schema).len()
            &&& forall|i: int|
                0 <= i < pk_columns(schema).len() ==> has_key(pk, #[trigger] pk_columns(schema)[i].name@)
        },
        update_spec(table, schema, column, value, pk, d) matches Ok((_, b)) ==> {
            &&& b.len() == 1 + pk_columns(schema).len()
            &&& b[0] == crate::db::bind_of_json(value)
        },
{
}

// ---------------------------------------------------------------- numbers

proof fn lemma_dec_nat(n: nat)
    ensures
        dec_nat(n).len() >= 1,
        all_digits(dec_nat(n)),
        digits_value(dec_nat(n)) == n,
        is_ascii_digit(dec_nat(n)[0]),
    decreases n,
{
    if n < 10 {
        let c = digit_char(n);
        assert(c as u32 == n + 48);
        assert(dec_nat(n) == seq![c]);
        assert(seq![c].drop_last() =~= Seq::<char>::empty());
        assert(digits_value(Seq::<char>::empty()) == 0);
    } else {
        lemma_dec_nat(n / 10);
        let c = digit_char(n % 10);
        assert(c as u32 == n % 10 + 48);
        let d = dec_nat(n / 10);
        assert(dec_nat(n) == d.push(c));
        assert(d.push(c).drop_last() =~= d);
        assert(digits_value(d.push(c)) == digits_value(d) * 10 + (n % 10));
        assert((n / 10) * 10 + n % 10 == n);
        assert forall|i: int| 0 <= i < d.push(c).len() implies is_ascii_digit(#[trigger] d.push(c)[i]) by {
            if i < d.len() {
                assert(d.push(c)[i] == d[i]);
            }
        }
        assert(d.push(c)[0] == d[0]);
    }
}

/// The decimal text the library writes for an integer reads back as that
/// integer, so a filter value typed that way on an integer column binds as
/// exactly that integer.
pub proof fn integer_text_binds_as_integer(i: i64)
    ensures
        parse_i64(dec_int(i as int)) == Some(i),
        bind_for_column("integer"@, dec_int(i as int)) == BindView::Int(i),
{
    reveal_strlit("integer");
    reveal_strlit("int");
    let t = dec_int(i as int);
    if i < 0 {
        let m: nat = (-i) as nat;
        lemma_dec_nat(m);
        assert(t == seq!['-'] + dec_nat(m));
        assert(t[0] == '-');
        assert(t.drop_first() =~= dec_nat(m));
        assert(strip_sign(t) == dec_nat(m));
    } else {
        lemma_dec_nat(i as nat);
        assert(t == dec_nat(i as nat));
        assert(is_ascii_digit(t[0]));
        assert(strip_sign(t) == t);
    }
    let low = lower("integer"@);
    assert(low =~= "integer"@);
    assert(low.subrange(0, 3) =~= "int"@);
    assert(occurs_at(low, "int"@, 0));
    assert(contains(low, "int"@));
}


/// A text default that does not read as a number goes into the DDL as a
/// string literal that reads back, as SQL reads it, as exactly the default:
/// a quote inside it cannot end the literal early.
pub proof fn default_literal_reads_back(v: String)
    requires
        v@.len() > 0,
        !is_float_text(v@),
    ensures
        default_clause(Some(v)) == " DEFAULT "@ + quote_with('\'', '\'', v@),
        scan_quoted(quote_with('\'', '\'', v@), '\'', '\'') == Some(
            (v@, quote_with('\'', '\'', v@).len()),
        ),
{
    reveal_strlit("'");
    reveal_strlit(" DEFAULT '");
    reveal_strlit(" DEFAULT ");
    assert(" DEFAULT '"@ =~= " DEFAULT "@ + seq!['\'']);
    assert(default_clause(Some(v)) =~= " DEFAULT "@ + quote_with('\'', '\'', v@));
    let empty = Seq::<char>::empty();
    lemma_scan_quoted('\'', '\'', v@, empty);
    assert(quote_with('\'', '\'', v@) + empty =~= quote_with('\'', '\'', v@));
}

/// ILIKE exists on Postgres only: there the pattern operators stand as
/// written, and on every other engine ILIKE and NOT ILIKE become LIKE and
/// NOT LIKE while LIKE and NOT LIKE stay as they are.
pub proof fn ilike_is_postgres_only(d: Dialect)
    ensures
        d == Dialect::Pg ==> ilike_text(d, "ILIKE"@) == "ILIKE"@ && ilike_text(d, "NOT ILIKE"@)
            == "NOT ILIKE"@,
        d != Dialect::Pg ==> {
            &&& ilike_text(d, "ILIKE"@) == "LIKE"@
            &&& ilike_text(d, "NOT ILIKE"@) == "NOT LIKE"@
            &&& ilike_text(d, "LIKE"@) == "LIKE"@
            &&& ilike_text(d, "NOT LIKE"@) == "NOT LIKE"@
        },
{
    reveal_strlit("ILIKE");
    reveal_strlit("LIKE");
    reveal_strlit("NOT ILIKE");
    reveal_strlit("NOT LIKE");
    let p = "ILIKE"@;
    let r = "LIKE"@;
    let e = Seq::<char>::empty();
    assert(replace_str(e, p, r) == e);
    // ILIKE
    assert(p.subrange(0, 5) =~= p);
    assert(starts_with(p, p));
    assert(p.skip(5) =~= e);
    assert(replace_str(p, p, r) =~= r);
    // LIKE: too short to hold the pattern at any position
    let l = r;
    assert(!starts_with(l, p));
    assert(!starts_with(l.drop_first(), p));
    assert(!starts_with(l.drop_first().drop_first(), p));
    assert(!starts_with(l.drop_first().drop_first().drop_first(), p));
    assert(l.drop_first().drop_first().drop_first().drop_first() =~= e);
    assert(replace_str(l.drop_first().drop_first().drop_first(), p, r) =~= seq!['E']);
    assert(replace_str(l.drop_first().drop_first(), p, r) =~= seq!['K', 'E']);
    assert(replace_str(l.drop_first(), p, r) =~= seq!['I', 'K', 'E']);
    assert(replace_str(l, p, r) =~= l);
    // NOT ILIKE
    let n = "NOT ILIKE"@;
    assert(n.subrange(0, 5)[0] != p[0]);
    assert(!starts_with(n, p));
    assert(n.skip(1).subrange(0, 5)[0] != p[0]);
    assert(!starts_with(n.skip(1), p));
    assert(!starts_with(n.skip(2), p));
    assert(!starts_with(n.skip(3), p));
    assert(n.skip(1) =~= n.drop_first());
    assert(n.skip(2) =~= n.skip(1).drop_first());
    assert(n.skip(3) =~= n.skip(2).drop_first());
    assert(n.skip(4) =~= n.skip(3).drop_first());
    assert(n.skip(4) =~= p);
    assert(replace_str(n.skip(3), p, r) =~= seq![' '] + r);
    assert(replace_str(n.skip(2), p, r) =~= seq!['T', ' '] + r);
    assert(replace_str(n.skip(1), p, r) =~= seq!['O', 'T', ' '] + r);
    assert(replace_str(n, p, r) =~= "NOT LIKE"@);
    // NOT LIKE
    let m = "NOT LIKE"@;
    assert(m.skip(4) =~= l);
    assert(!starts_with(m, p));
    assert(!starts_with(m.skip(1), p));
    assert(!starts_with(m.skip(2), p));
    assert(!starts_with(m.skip(3), p));
    assert(m.skip(1) =~= m.drop_first());
    assert(m.skip(2) =~= m.skip(1).drop_first());
    assert(m.skip(3) =~= m.skip(2).drop_first());
    assert(m.skip(4) =~= m.skip(3).drop_first());
    assert(replace_str(m.skip(3), p, r) =~= seq![' '] + l);
    assert(replace_str(m.skip(2), p, r) =~= seq!['T', ' '] + l);
    assert(replace_str(m.skip(1), p, r) =~= seq!['O', 'T', ' '] + l);
    assert(replace_str(m, p, r) =~= m);
}


// ---------------------------------------------------------------- identifiers

/// A filter the builders accept: its column is one of the schema's, its
/// operator one of the listed ones, and an IN list holds at least one value.
pub open spec fn filter_accepted(schema: Seq<ColumnInfo>, f: Filter) -> bool {
    &&& find_column(schema, f.column@) is Some
    &&& op_sql(f.op@) is Some
    &&& (f.op@ == "in"@ || f.op@ == "notin"@) ==> in_items(f.value@).len() > 0
}

proof fn lemma_clause_ok(schema: Seq<ColumnInfo>, f: Filter, d: Dialect, n: nat)
    ensures
        filter_clause(schema, f, d, n) is Ok <==> filter_accepted(schema, f),
{
    reveal_strlit("null");
    reveal_strlit("notnull");
    reveal_strlit("in");
    reveal_strlit("notin");
    assert("null"@ != "in"@ && "null"@ != "notin"@ && "notnull"@ != "in"@ && "notnull"@ != "notin"@) by {
        assert("null"@.len() == 4 && "in"@.len() == 2 && "notin"@.len() == 5);
        assert("notnull"@.len() == 7);
    }
}

proof fn lemma_parts_ok(schema: Seq<ColumnInfo>, filters: Seq<Filter>, d: Dialect)
    ensures
        where_parts(schema, filters, d) is Ok <==> forall|i: int|
            0 <= i < filters.len() ==> filter_accepted(schema, #[trigger] filters[i]),
    decreases filters.len(),
{
    if filters.len() > 0 {
        let init = filters.drop_last();
        lemma_parts_ok(schema, init, d);
        if where_parts(schema, filters, d) is Ok {
            if let Ok((p, b)) = where_parts(schema, init, d) {
                lemma_clause_ok(schema, filters.last(), d, b.len());
            }
            assert forall|i: int| 0 <= i < filters.len() implies filter_accepted(
                schema,
                #[trigger] filters[i],
            ) by {
                if i < filters.len() - 1 {
                    assert(init[i] == filters[i]);
                }
            }
        }
        if forall|i: int| 0 <= i < filters.len() ==> filter_accepted(schema, #[trigger] filters[i]) {
            assert forall|i: int| 0 <= i < init.len() implies filter_accepted(
                schema,
                #[trigger] init[i],
            ) by {
                assert(init[i] == filters[i]);
            }
            assert(filter_accepted(schema, filters[filters.len() - 1]));
            if let Ok((p, b)) = where_parts(schema, init, d) {
                lemma_clause_ok(schema, filters.last(), d, b.len());
            }
        }
    }
}

/// The injection boundary: a row or count query is built exactly when every
/// filter names a column of the schema with a listed operator (and an IN
/// list has values) and, for the row query, the sort column is a column of
/// the schema too. No other identifier ever reaches the SQL.
pub proof fn identifiers_come_from_the_schema(
    table: TableRef,
    schema: Seq<ColumnInfo>,
    filters: Seq<Filter>,
    sort: Option<Sort>,
    limit: i64,
    offset: i64,
    d: Dialect,
)
    ensures
        count_spec(table, schema, filters, d) is Ok <==> forall|i: int|
            0 <= i < filters.len() ==> filter_accepted(schema, #[trigger] filters[i]),
        select_spec(table, schema, filters, sort, limit, offset, d) is Ok <==> {
            &&& forall|i: int|
                0 <= i < filters.len() ==> filter_accepted(schema, #[trigger] filters[i])
            &&& sort matches Some(s) ==> find_column(schema, s.column@) is Some
        },
{
    lemma_parts_ok(schema, filters, d);
}


// ---------------------------------------------------------------- operators

/// The row query for a single filter and no sort or page: the table's rows
/// under that filter's clause, or the filter's error.
proof fn lemma_one_filter_select(table: TableRef, schema: Seq<ColumnInfo>, f: Filter, d: Dialect)
    ensures
        select_spec(table, schema, seq![f], None, 0, 0, d) == match filter_clause(schema, f, d, 0) {
            Ok((part, binds)) => Ok(("SELECT * FROM "@ + quoted_text(d, table) + " WHERE "@ + part, binds)),
            Err(e) => Err(e),
        },
{
    let fs = seq![f];
    let none = Seq::<Filter>::empty();
    assert(fs.drop_last() =~= none);
    assert(fs.last() == f);
    assert(where_parts(schema, none, d) == Ok::<(Seq<Seq<char>>, Seq<BindView>), Seq<char>>(
        (seq![], seq![]),
    ));
    assert(page_text(d, 0, 0, false) == Seq::<char>::empty());
    match filter_clause(schema, f, d, 0) {
        Ok((part, binds)) => {
            let empty_parts = Seq::<Seq<char>>::empty();
            assert(empty_parts.push(part) =~= seq![part]);
            assert(Seq::<BindView>::empty() + binds =~= binds);
            assert(where_parts(schema, fs, d) == Ok::<(Seq<Seq<char>>, Seq<BindView>), Seq<char>>(
                (seq![part], binds),
            ));
            assert(join(seq![part], " AND "@) == part);
            assert(where_text(seq![part]) == " WHERE "@ + part);
            let head = "SELECT * FROM "@ + quoted_text(d, table) + (" WHERE "@ + part);
            assert(head + Seq::<char>::empty() =~= head);
            assert(head =~= "SELECT * FROM "@ + quoted_text(d, table) + " WHERE "@ + part);
        },
        Err(e) => {},
    }
}

/// The operator names, by their length and the characters that tell
/// names of one length apart.
proof fn lemma_op_names()
    ensures
        "eq"@.len() == 2 && "eq"@[0] == 'e',
        "neq"@.len() == 3 && "neq"@[0] == 'n',
        "lt"@.len() == 2 && "lt"@[0] == 'l',
        "lte"@.len() == 3 && "lte"@[0] == 'l',
        "gt"@.len() == 2 && "gt"@[0] == 'g',
        "gte"@.len() == 3 && "gte"@[0] == 'g',
        "like"@.len() == 4 && "like"@[0] == 'l',
        "notlike"@.len() == 7 && "notlike"@[0] == 'n',
        "ilike"@.len() == 5 && "ilike"@[0] == 'i',
        "notilike"@.len() == 8 && "notilike"@[0] == 'n',
        "contains"@.len() == 8 && "contains"@[0] == 'c',
        "startswith"@.len() == 10 && "startswith"@[0] == 's',
        "endswith"@.len() == 8 && "endswith"@[0] == 'e',
        "in"@.len() == 2 && "in"@[0] == 'i',
        "notin"@.len() == 5 && "notin"@[0] == 'n',
        "null"@.len() == 4 && "null"@[0] == 'n',
        "notnull"@.len() == 7 && "notnull"@[0] == 'n',
        "notlike"@[3] == 'l' && "notnull"@[3] == 'n',
{
    reveal_strlit("eq");
    reveal_strlit("neq");
    reveal_strlit("lt");
    reveal_strlit("lte");
    reveal_strlit("gt");
    reveal_strlit("gte");
    reveal_strlit("like");
    reveal_strlit("notlike");
    reveal_strlit("ilike");
    reveal_strlit("notilike");
    reveal_strlit("contains");
    reveal_strlit("startswith");
    reveal_strlit("endswith");
    reveal_strlit("in");
    reveal_strlit("notin");
    reveal_strlit("null");
    reveal_strlit("notnull");
}

/// The filter operators the grid offers and the SQL each is written as.
proof fn lemma_operator_table()
    ensures
        op_sql("eq"@) == Some("="@),
        op_sql("neq"@) == Some("!="@),
        op_sql("lt"@) == Some("<"@),
        op_sql("lte"@) == Some("<="@),
        op_sql("gt"@) == Some(">"@),
        op_sql("gte"@) == Some(">="@),
        op_sql("null"@) == Some("IS NULL"@),
        op_sql("notnull"@) == Some("IS NOT NULL"@),
        op_sql("in"@) == Some("IN"@),
        op_sql("notin"@) == Some("NOT IN"@),
        op_sql("like"@) == Some("LIKE"@),
        op_sql("notlike"@) == Some("NOT LIKE"@),
        op_sql("ilike"@) == Some("ILIKE"@),
        op_sql("notilike"@) == Some("NOT ILIKE"@),
        op_sql("contains"@) == Some("LIKE"@),
        op_sql("startswith"@) == Some("LIKE"@),
        op_sql("endswith"@) == Some("LIKE"@),
{
    lemma_op_names();
}

/// Which operator names are which: the ones that test for NULL, list values,
/// or compare against a pattern are told apart from the plain comparisons.
proof fn lemma_operator_kinds(op: Seq<char>)
    ensures
        (op == "eq"@ || op == "neq"@ || op == "lt"@ || op == "lte"@ || op == "gt"@ || op
            == "gte"@) ==> !(op == "null"@ || op == "notnull"@) && !(op == "in"@ || op
            == "notin"@) && !is_pattern_op(op),
        (op == "null"@ || op == "notnull"@) ==> op_sql(op) is Some,
        (op == "in"@ || op == "notin"@) ==> !(op == "null"@ || op == "notnull"@),
        (op == "like"@ || op == "notlike"@ || op == "ilike"@ || op == "notilike"@) ==> !(op
            == "null"@ || op == "notnull"@) && !(op == "in"@ || op == "notin"@) && is_pattern_op(op)
            && !is_wrapping_op(op),
        (op == "contains"@ || op == "startswith"@ || op == "endswith"@) ==> !(op == "null"@
            || op == "notnull"@) && !(op == "in"@ || op == "notin"@) && is_pattern_op(op)
            && is_wrapping_op(op),
{
    lemma_operator_table();
    lemma_op_names();
}

/// `" " + sym + " "` for a comparison symbol.
proof fn lemma_spaced(sym: Seq<char>, spaced: Seq<char>)
    requires
        spaced =~= seq![' '] + sym + seq![' '],
    ensures
        " "@ + sym + " "@ == spaced,
{
    reveal_strlit(" ");
    assert(" "@ =~= seq![' ']);
}

/// A comparison filter's row query: the column, the comparison in spaces,
/// and the value's placeholder.
proof fn lemma_comparison_clause(table: TableRef, schema: Seq<ColumnInfo>, f: Filter, d: Dialect)
    requires
        column_type(schema, f.column@) is Some,
        f.op@ == "eq"@ || f.op@ == "neq"@ || f.op@ == "lt"@ || f.op@ == "lte"@ || f.op@ == "gt"@
            || f.op@ == "gte"@,
    ensures
        ({
            let dt = column_type(schema, f.column@).unwrap();
            select_spec(table, schema, seq![f], None, 0, 0, d) == Ok::<
                (Seq<char>, Seq<BindView>),
                Seq<char>,
            >(
                (
                    "SELECT * FROM "@ + quoted_text(d, table) + " WHERE "@ + quote_text(d, f.column@)
                        + (" "@ + op_sql(f.op@).unwrap() + " "@) + cast_text(
                        d,
                        placeholder_text(d, 1),
                        dt,
                    ),
                    seq![bind_for_column(dt, f.value@)],
                ),
            )
        }),
{
    let op = f.op@;
    lemma_one_filter_select(table, schema, f, d);
    lemma_operator_table();
    lemma_operator_kinds(op);
    let dt = column_type(schema, f.column@).unwrap();
    let rows = "SELECT * FROM "@ + quoted_text(d, table) + " WHERE "@;
    let col = quote_text(d, f.column@);
    let hole = cast_text(d, placeholder_text(d, 1), dt);
    let sym = op_sql(op).unwrap();
    assert(filter_clause(schema, f, d, 0) == Ok::<(Seq<char>, Seq<BindView>), Seq<char>>(
        (col + " "@ + sym + " "@ + hole, seq![bind_for_column(dt, f.value@)]),
    ));
    assert(rows + (col + " "@ + sym + " "@ + hole) =~= rows + col + (" "@ + sym + " "@) + hole);
}

/// The six comparison operators are written as the comparison they name,
/// between the filter's column and its bound value: `eq` is `=`, `neq` is
/// `!=`, `lt` is `<`, `lte` is `<=`, `gt` is `>` and `gte` is `>=`. So a
/// `gt` filter keeps the rows whose column is strictly greater than the
/// value, and a `gte` filter keeps the equal ones too.
pub proof fn comparison_filters_write_their_own_comparison(
    table: TableRef,
    schema: Seq<ColumnInfo>,
    f: Filter,
    d: Dialect,
)
    requires
        column_type(schema, f.column@) is Some,
    ensures
        ({
            let got = select_spec(table, schema, seq![f], None, 0, 0, d);
            let op = f.op@;
            let dt = column_type(schema, f.column@).unwrap();
            let head = "SELECT * FROM "@ + quoted_text(d, table) + " WHERE "@ + quote_text(d, f.column@);
            let hole = cast_text(d, placeholder_text(d, 1), dt);
            let one = seq![bind_for_column(dt, f.value@)];
            &&& op == "eq"@ ==> got == Ok::<(Seq<char>, Seq<BindView>), Seq<char>>(
                (head + " = "@ + hole, one),
            )
            &&& op == "neq"@ ==> got == Ok::<(Seq<char>, Seq<BindView>), Seq<char>>(
                (head + " != "@ + hole, one),
            )
            &&& op == "lt"@ ==> got == Ok::<(Seq<char>, Seq<BindView>), Seq<char>>(
                (head + " < "@ + hole, one),
            )
            &&& op == "lte"@ ==> got == Ok::<(Seq<char>, Seq<BindView>), Seq<char>>(
                (head + " <= "@ + hole, one),
            )
            &&& op == "gt"@ ==> got == Ok::<(Seq<char>, Seq<BindView>), Seq<char>>(
                (head + " > "@ + hole, one),
            )
            &&& op == "gte"@ ==> got == Ok::<(Seq<char>, Seq<BindView>), Seq<char>>(
                (head + " >= "@ + hole, one),
            )
        }),
{
    let op = f.op@;
    lemma_op_names();
    lemma_operator_table();
    if op == "eq"@ {
        lemma_comparison_clause(table, schema, f, d);
        reveal_strlit(" = ");
        reveal_strlit("=");
        lemma_spaced(op_sql(op).unwrap(), " = "@);
        assert(op != "neq"@ && op != "lt"@ && op != "lte"@ && op != "gt"@ && op != "gte"@);
    } else if op == "neq"@ {
        lemma_comparison_clause(table, schema, f, d);
        reveal_strlit(" != ");
        reveal_strlit("!=");
        lemma_spaced(op_sql(op).unwrap(), " != "@);
        assert(op != "eq"@ && op != "lt"@ && op != "lte"@ && op != "gt"@ && op != "gte"@);
    } else if op == "lt"@ {
        lemma_comparison_clause(table, schema, f, d);
        reveal_strlit(" < ");
        reveal_strlit("<");
        lemma_spaced(op_sql(op).unwrap(), " < "@);
        assert(op != "eq"@ && op != "neq"@ && op != "lte"@ && op != "gt"@ && op != "gte"@);
    } else if op == "lte"@ {
        lemma_comparison_clause(table, schema, f, d);
        reveal_strlit(" <= ");
        reveal_strlit("<=");
        lemma_spaced(op_sql(op).unwrap(), " <= "@);
        assert(op != "eq"@ && op != "neq"@ && op != "lt"@ && op != "gt"@ && op != "gte"@);
    } else if op == "gt"@ {
        lemma_comparison_clause(table, schema, f, d);
        reveal_strlit(" > ");
        reveal_strlit(">");
        lemma_spaced(op_sql(op).unwrap(), " > "@);
        assert(op != "eq"@ && op != "neq"@ && op != "lt"@ && op != "lte"@ && op != "gte"@);
    } else if op == "gte"@ {
        lemma_comparison_clause(table, schema, f, d);
        reveal_strlit(" >= ");
        reveal_strlit(">=");
        lemma_spaced(op_sql(op).unwrap(), " >= "@);
        assert(op != "eq"@ && op != "neq"@ && op != "lt"@ && op != "lte"@ && op != "gt"@);
    }
}

/// A NULL-test filter's row query: the column and the test, nothing bound.
proof fn lemma_null_clause(table: TableRef, schema: Seq<ColumnInfo>, f: Filter, d: Dialect)
    requires
        column_type(schema, f.column@) is Some,
        f.op@ == "null"@ || f.op@ == "notnull"@,
    ensures
        select_spec(table, schema, seq![f], None, 0, 0, d) == Ok::<
            (Seq<char>, Seq<BindView>),
            Seq<char>,
        >(
            (
                "SELECT * FROM "@ + quoted_text(d, table) + " WHERE "@ + quote_text(d, f.column@)
                    + (" "@ + op_sql(f.op@).unwrap()),
                seq![],
            ),
        ),
{
    let op = f.op@;
    lemma_one_filter_select(table, schema, f, d);
    lemma_operator_table();
    lemma_op_names();
    let rows = "SELECT * FROM "@ + quoted_text(d, table) + " WHERE "@;
    let col = quote_text(d, f.column@);
    let sym = op_sql(op).unwrap();
    assert(rows + (col + " "@ + sym) =~= rows + col + (" "@ + sym));
}

/// `null` keeps the rows whose column IS NULL and `notnull` the rows whose
/// column IS NOT NULL; neither binds a value.
pub proof fn null_filters_test_for_null(
    table: TableRef,
    schema: Seq<ColumnInfo>,
    f: Filter,
    d: Dialect,
)
    requires
        column_type(schema, f.column@) is Some,
    ensures
        ({
            let got = select_spec(table, schema, seq![f], None, 0, 0, d);
            let head = "SELECT * FROM "@ + quoted_text(d, table) + " WHERE "@ + quote_text(d, f.column@);
            &&& f.op@ == "null"@ ==> got == Ok::<(Seq<char>, Seq<BindView>), Seq<char>>(
                (head + " IS NULL"@, seq![]),
            )
            &&& f.op@ == "notnull"@ ==> got == Ok::<(Seq<char>, Seq<BindView>), Seq<char>>(
                (head + " IS NOT NULL"@, seq![]),
            )
        }),
{
    lemma_op_names();
    lemma_operator_table();
    reveal_strlit(" ");
    if f.op@ == "null"@ {
        lemma_null_clause(table, schema, f, d);
        reveal_strlit("IS NULL");
        reveal_strlit(" IS NULL");
        assert(" "@ + "IS NULL"@ =~= " IS NULL"@);
    } else if f.op@ == "notnull"@ {
        lemma_null_clause(table, schema, f, d);
        reveal_strlit("IS NOT NULL");
        reveal_strlit(" IS NOT NULL");
        assert(" "@ + "IS NOT NULL"@ =~= " IS NOT NULL"@);
    }
}

/// An IN-list filter's row query: the column, the list operator and one
/// placeholder per listed value, or the error for an empty list.
proof fn lemma_list_clause(table: TableRef, schema: Seq<ColumnInfo>, f: Filter, d: Dialect)
    requires
        column_type(schema, f.column@) is Some,
        f.op@ == "in"@ || f.op@ == "notin"@,
    ensures
        ({
            let dt = column_type(schema, f.column@).unwrap();
            let items = in_items(f.value@);
            &&& items.len() == 0 ==> select_spec(table, schema, seq![f], None, 0, 0, d) == Err::<
                (Seq<char>, Seq<BindView>),
                Seq<char>,
            >(f.op@ + " needs a comma-separated list of values"@)
            &&& items.len() > 0 ==> select_spec(table, schema, seq![f], None, 0, 0, d) == Ok::<
                (Seq<char>, Seq<BindView>),
                Seq<char>,
            >(
                (
                    "SELECT * FROM "@ + quoted_text(d, table) + " WHERE "@ + quote_text(
                        d,
                        f.column@,
                    ) + (" "@ + op_sql(f.op@).unwrap() + " ("@) + join(
                        in_holes(d, dt, 0, items.len()),
                        ", "@,
                    ) + ")"@,
                    Seq::new(items.len(), |j: int| bind_for_column(dt, items[j])),
                ),
            )
        }),
{
    let op = f.op@;
    lemma_one_filter_select(table, schema, f, d);
    lemma_operator_table();
    lemma_op_names();
    let dt = column_type(schema, f.column@).unwrap();
    let items = in_items(f.value@);
    let rows = "SELECT * FROM "@ + quoted_text(d, table) + " WHERE "@;
    let col = quote_text(d, f.column@);
    let sym = op_sql(op).unwrap();
    let holes = join(in_holes(d, dt, 0, items.len()), ", "@);
    assert(rows + (col + " "@ + sym + " ("@ + holes + ")"@) =~= rows + col + (" "@ + sym + " ("@)
        + holes + ")"@);
}

/// `in` keeps the rows whose column is one of the listed values and `notin`
/// the rows whose column is none of them: one placeholder per value, each
/// value bound as the column's type reads it; an empty list is refused.
pub proof fn list_filters_bind_each_value(
    table: TableRef,
    schema: Seq<ColumnInfo>,
    f: Filter,
    d: Dialect,
)
    requires
        column_type(schema, f.column@) is Some,
    ensures
        ({
            let got = select_spec(table, schema, seq![f], None, 0, 0, d);
            let dt = column_type(schema, f.column@).unwrap();
            let items = in_items(f.value@);
            let head = "SELECT * FROM "@ + quoted_text(d, table) + " WHERE "@ + quote_text(d, f.column@);
            let holes = join(
                Seq::new(
                    items.len(),
                    |j: int| cast_text(d, placeholder_text(d, (j + 1) as nat), dt),
                ),
                ", "@,
            );
            let listed = Seq::new(items.len(), |j: int| bind_for_column(dt, items[j]));
            &&& (f.op@ == "in"@ || f.op@ == "notin"@) && items.len() == 0 ==> got == Err::<
                (Seq<char>, Seq<BindView>),
                Seq<char>,
            >(f.op@ + " needs a comma-separated list of values"@)
            &&& f.op@ == "in"@ && items.len() > 0 ==> got == Ok::<
                (Seq<char>, Seq<BindView>),
                Seq<char>,
            >((head + " IN ("@ + holes + ")"@, listed))
            &&& f.op@ == "notin"@ && items.len() > 0 ==> got == Ok::<
                (Seq<char>, Seq<BindView>),
                Seq<char>,
            >((head + " NOT IN ("@ + holes + ")"@, listed))
        }),
{
    lemma_op_names();
    lemma_operator_table();
    reveal_strlit(" ");
    reveal_strlit(" (");
    let dt = column_type(schema, f.column@).unwrap();
    let items = in_items(f.value@);
    assert(in_holes(d, dt, 0, items.len()) =~= Seq::new(
        items.len(),
        |j: int| cast_text(d, placeholder_text(d, (j + 1) as nat), dt),
    ));
    if f.op@ == "in"@ {
        lemma_list_clause(table, schema, f, d);
        reveal_strlit("IN");
        reveal_strlit(" IN (");
        assert(" "@ + "IN"@ + " ("@ =~= " IN ("@);
    } else if f.op@ == "notin"@ {
        lemma_list_clause(table, schema, f, d);
        reveal_strlit("NOT IN");
        reveal_strlit(" NOT IN (");
        assert(" "@ + "NOT IN"@ + " ("@ =~= " NOT IN ("@);
    }
}

// ---------------------------------------------------------------- fetch or execute

/// A statement that starts, after any whitespace, with `kw` in any ASCII
/// case: its lowered head starts with `kw` lowered.
proof fn lemma_lowered_head(ws: Seq<char>, kw: Seq<char>, rest: Seq<char>)
    requires
        forall|i: int| 0 <= i < ws.len() ==> is_ws(#[trigger] ws[i]),
        kw.len() > 0,
        'a' <= lower_char(kw[0]) <= 'z',
    ensures
        starts_with(lower(trim_start(ws + kw + rest)), lower(kw)),
{
    let s = ws + kw + rest;
    let c = kw[0];
    assert(('a' <= c && c <= 'z') || ('A' <= c && c <= 'Z')) by {
        if !('A' <= c && c <= 'Z') {
            assert(lower_char(c) == c);
        }
    }
    assert(!is_ws(c));
    assert forall|j: int| 0 <= j < ws.len() implies is_ws(#[trigger] s[j]) by {
        assert(s[j] == ws[j]);
    }
    lemma_leading_ws(s, ws.len() as int);
    let t = s.skip(ws.len() as int);
    assert(t =~= kw + rest);
    assert(t[0] == c);
    assert(leading_ws(t) == 0);
    assert(trim_start(s) =~= kw + rest);
    let low = lower(kw + rest);
    assert(low.subrange(0, kw.len() as int) =~= lower(kw));
}

/// A statement is fetched, and its rows shown, when after any leading
/// whitespace it starts with `select`, `with`, `pragma`, `explain`, `show`,
/// `values`, `describe` or `desc`, written in any ASCII case; so is one
/// with a `returning` clause. Every other statement is executed for its
/// count of affected rows.
pub proof fn row_returning_statements_are_fetched(ws: Seq<char>, kw: Seq<char>, rest: Seq<char>)
    requires
        forall|i: int| 0 <= i < ws.len() ==> is_ws(#[trigger] ws[i]),
    ensures
        (lower(kw) == "select"@ || lower(kw) == "with"@ || lower(kw) == "pragma"@ || lower(kw)
            == "explain"@ || lower(kw) == "show"@ || lower(kw) == "values"@ || lower(kw)
            == "describe"@ || lower(kw) == "desc"@) ==> is_fetch_spec(ws + kw + rest),
        ({
            let sql = ws + kw + rest;
            let head = lower(trim_start(sql));
            is_fetch_spec(sql) <==> (starts_with(head, "select"@) || starts_with(head, "with"@)
                || starts_with(head, "pragma"@) || starts_with(head, "explain"@) || starts_with(
                head,
                "show"@,
            ) || starts_with(head, "values"@) || starts_with(head, "describe"@) || starts_with(
                head,
                "desc"@,
            ) || contains(head, "returning"@))
        }),
{
    reveal_strlit("select");
    reveal_strlit("with");
    reveal_strlit("pragma");
    reveal_strlit("explain");
    reveal_strlit("show");
    reveal_strlit("values");
    reveal_strlit("describe");
    reveal_strlit("desc");
    let k = lower(kw);
    if k == "select"@ || k == "with"@ || k == "pragma"@ || k == "explain"@ || k == "show"@ || k
        == "values"@ || k == "describe"@ || k == "desc"@ {
        assert(k.len() == kw.len());
        assert(k.len() > 0);
        assert(k[0] == lower_char(kw[0]));
        lemma_lowered_head(ws, kw, rest);
    }
}

/// T-SQL: a statement is fetched when after any leading whitespace it
/// starts with `select`, `with`, `exec`, `execute`, `declare` or `print`,
/// in any ASCII case, or has an ` output ` clause; every other statement is
/// executed.
pub proof fn tsql_row_returning_statements_are_fetched(
    ws: Seq<char>,
    kw: Seq<char>,
    rest: Seq<char>,
)
    requires
        forall|i: int| 0 <= i < ws.len() ==> is_ws(#[trigger] ws[i]),
    ensures
        (lower(kw) == "select"@ || lower(kw) == "with"@ || lower(kw) == "exec"@ || lower(kw)
            == "execute"@ || lower(kw) == "declare"@ || lower(kw) == "print"@)
            ==> crate::mssql::is_fetch_spec(ws + kw + rest),
        ({
            let sql = ws + kw + rest;
            let head = lower(trim_start(sql));
            crate::mssql::is_fetch_spec(sql) <==> (starts_with(head, "select"@) || starts_with(
                head,
                "with"@,
            ) || starts_with(head, "exec"@) || starts_with(head, "execute"@) || starts_with(
                head,
                "declare"@,
            ) || starts_with(head, "print"@) || contains(head, " output "@))
        }),
{
    reveal_strlit("select");
    reveal_strlit("with");
    reveal_strlit("exec");
    reveal_strlit("execute");
    reveal_strlit("declare");
    reveal_strlit("print");
    let k = lower(kw);
    if k == "select"@ || k == "with"@ || k == "exec"@ || k == "execute"@ || k == "declare"@ || k
        == "print"@ {
        assert(k.len() == kw.len());
        assert(k.len() > 0);
        assert(k[0] == lower_char(kw[0]));
        lemma_lowered_head(ws, kw, rest);
    }
}

// ---------------------------------------------------------------- opening

/// Opening a saved connection hands the driver the password it was given,
/// on every server engine: Postgres and MySQL get exactly that password, or
/// none when none was given; SQL Server gets that password, or an empty one
/// when none was given. The database is always the one saved, a port left
/// unset is the engine's standard port, and SQLite opens the saved file.
pub proof fn plans_carry_the_password(conn: Connection, password: Option<String>, p: ConnectPlan)
    requires
        connect_plan_ok(conn, password, p),
    ensures
        conn.engine@ == "postgres"@ ==> (p matches ConnectPlan::Postgres {
            password: pw,
            database,
            port,
            ..
        } && (match password {
            Some(given) => pw matches Some(sent) && sent@ == given@,
            None => pw is None,
        }) && database@ == conn.database@ && (conn.port is None ==> port == 5432)),
        conn.engine@ == "mysql"@ ==> (p matches ConnectPlan::MySql {
            password: pw,
            database,
            port,
            ..
        } && (match password {
            Some(given) => pw matches Some(sent) && sent@ == given@,
            None => pw is None,
        }) && database@ == conn.database@ && (conn.port is None ==> port == 3306)),
        conn.engine@ == "mssql"@ ==> (p matches ConnectPlan::Mssql {
            password: pw,
            database,
            port,
            ..
        } && (match password {
            Some(given) => pw@ == given@,
            None => pw@.len() == 0,
        }) && database@ == conn.database@ && (conn.port is None ==> port == 1433)),
        conn.engine@ == "sqlite"@ ==> (p matches ConnectPlan::Sqlite { path }
            && path@ == conn.database@),
{
    reveal_strlit("postgres");
    reveal_strlit("mysql");
    reveal_strlit("mssql");
    reveal_strlit("sqlite");
    assert("mysql"@.len() == 5 && "mssql"@.len() == 5 && "postgres"@.len() == 8 && "sqlite"@.len()
        == 6);
    assert("mysql"@[1] == 'y' && "mssql"@[1] == 's');
    assert("mysql"@ != "postgres"@ && "mysql"@ != "sqlite"@);
    assert("mssql"@ != "postgres"@ && "mssql"@ != "sqlite"@ && "mssql"@ != "mysql"@);
    assert(5432i64 as u16 == 5432) by (bit_vector);
    assert(3306i64 as u16 == 3306) by (bit_vector);
    assert(1433i64 as u16 == 1433) by (bit_vector);
}

// ---------------------------------------------------------------- catalog rows

/// A SQL Server catalog row lists a foreign key as four strings in the
/// query's column order: the key's column, the referenced schema, the
/// referenced table and the referenced column. Reading one more row adds
/// exactly the key it lists, with each field taken from its own cell; a
/// row that is shorter or holds anything but strings there adds nothing.
/// `fks` is any list read as `fks_from_rows` promises.
pub proof fn fk_fields_follow_the_catalog_columns(
    rows: Seq<Vec<JsonValue>>,
    row: Vec<JsonValue>,
    fks: Seq<ForeignKey>,
)
    requires
        fk_views(fks) == rows_fks(rows.push(row)),
    ensures
        row@.len() >= 4 && row@[0] is Str && row@[1] is Str && row@[2] is Str && row@[3] is Str
            ==> {
            &&& fks.len() == rows_fks(rows).len() + 1
            &&& fks.last().column@ == row@[0]->Str_0@
            &&& fks.last().ref_schema matches Some(s) && s@ == row@[1]->Str_0@
            &&& fks.last().ref_table@ == row@[2]->Str_0@
            &&& fks.last().ref_column@ == row@[3]->Str_0@
        },
        !(row@.len() >= 4 && row@[0] is Str && row@[1] is Str && row@[2] is Str && row@[3] is Str)
            ==> fks.len() == rows_fks(rows).len(),
{
    let all = rows.push(row);
    assert(all.drop_last() =~= rows);
    assert(all.last() == row);
    assert(fk_views(fks).len() == fks.len());
    if fks.len() > 0 {
        assert(fk_views(fks)[fks.len() - 1] == crate::introspect::fk_view(fks.last()));
    }
}

// ---------------------------------------------------------------- new columns

/// A new column's type is written into the DDL as typed, so it is checked
/// character by character: it is accepted exactly when it is not empty and
/// is made only of ASCII letters, digits, spaces, parentheses, commas,
/// underscores and square brackets. Multi-word types such as `timestamp
/// with time zone`, `double precision` or `int unsigned`, sized types such
/// as `numeric(10, 2)` and array types such as `text[]` all pass. The name
/// must be 1 to 128 ASCII letters, digits, underscores and spaces, not
/// starting with a space; it is checked first.
pub proof fn column_types_accept_words_sizes_and_arrays(name: Seq<char>, col_type: Seq<char>)
    ensures
        ({
            let good_name = name.len() > 0 && name.len() <= 128 && name[0] != ' ' && forall|i: int|
                0 <= i < name.len() ==> {
                    let c = #[trigger] name[i];
                    ('a' <= c <= 'z') || ('A' <= c <= 'Z') || ('0' <= c <= '9') || c == '_' || c
                        == ' '
                };
            let good_type = col_type.len() > 0 && forall|i: int|
                0 <= i < col_type.len() ==> {
                    let c = #[trigger] col_type[i];
                    ('a' <= c <= 'z') || ('A' <= c <= 'Z') || ('0' <= c <= '9') || c == ' ' || c
                        == '(' || c == ')' || c == ',' || c == '_' || c == '[' || c == ']'
                };
            &&& !good_name ==> column_def_check(name, col_type) == Err::<(), Seq<char>>(
                "invalid column name"@,
            )
            &&& good_name && good_type ==> column_def_check(name, col_type) == Ok::<(), Seq<char>>(())
            &&& good_name && !good_type ==> column_def_check(name, col_type) == Err::<(), Seq<char>>(
                "invalid column type"@,
            )
        }),
{
}

} // verus!
