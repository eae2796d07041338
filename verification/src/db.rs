//! The SQL dialects, the table/column descriptions, and the builders that
//! turn the grid's filters, sort and page into a statement with bound values.

use vstd::prelude::*;
use crate::json::JsonValue;
use crate::meta::Connection;
use crate::mssql::{split_instance, split_instance_spec};
use crate::numparse::{
    is_float_text, is_float_text_exec, parse_bool, parse_bool_exec, parse_i64, parse_i64_exec,
    skip_vec,
};
use crate::text::{
    comma_items, join, join_strings, split_char, str_eq, trimmed_nonempty, vec_views, views,
    chars_of, contains, dec_int, dec_nat, is_ascii_alnum, leading_ws_exec, lower, lower_vec,
    push_char, push_dec_i64, push_dec_u64, replace_char, replace_str,
    replace_str_vec, starts_with, string_of, trim_start, vec_contains, vec_starts_with,
};

verus! {

/// Everything the SQL builders need to know about an engine.
#[derive(Debug, Clone, Copy, PartialEq, Eq, Structural)]
pub enum Dialect {
    Pg,
    Sqlite,
    MySql,
    Mssql,
}

/// The character that opens a quoted identifier.
pub open spec fn open_quote(d: Dialect) -> char {
    match d {
        Dialect::Pg | Dialect::Sqlite => '"',
        Dialect::MySql => '`',
        Dialect::Mssql => '[',
    }
}

/// The character that closes a quoted identifier; inside one it is written
/// twice.
pub open spec fn close_quote(d: Dialect) -> char {
    match d {
        Dialect::Pg | Dialect::Sqlite => '"',
        Dialect::MySql => '`',
        Dialect::Mssql => ']',
    }
}

/// `name` as a quoted identifier of `d`.
pub open spec fn quote_text(d: Dialect, name: Seq<char>) -> Seq<char> {
    seq![open_quote(d)] + replace_char(name, close_quote(d), seq![close_quote(d), close_quote(d)])
        + seq![close_quote(d)]
}

/// The bind placeholder for parameter `n`, counting from 1.
pub open spec fn placeholder_text(d: Dialect, n: nat) -> Seq<char> {
    match d {
        Dialect::Pg => "$"@ + dec_nat(n),
        Dialect::Sqlite | Dialect::MySql => "?"@,
        Dialect::Mssql => "@P"@ + dec_nat(n),
    }
}

/// A placeholder cast to a column's declared type where the engine needs it.
pub open spec fn cast_text(d: Dialect, placeholder: Seq<char>, data_type: Seq<char>) -> Seq<char> {
    match d {
        Dialect::Pg => "CAST("@ + placeholder + " AS "@ + data_type + ")"@,
        _ => placeholder,
    }
}

/// The type every column is cast to for a pattern comparison.
pub open spec fn text_type_text(d: Dialect) -> Seq<char> {
    match d {
        Dialect::Pg | Dialect::Sqlite => "TEXT"@,
        Dialect::MySql => "CHAR"@,
        Dialect::Mssql => "NVARCHAR(MAX)"@,
    }
}

/// A pattern operator as `d` spells it: ILIKE exists on Postgres only.
pub open spec fn ilike_text(d: Dialect, op: Seq<char>) -> Seq<char> {
    match d {
        Dialect::Pg => op,
        _ => replace_str(op, "ILIKE"@, "LIKE"@),
    }
}

/// The keyword that adds a column in `ALTER TABLE`.
pub open spec fn add_column_kw_text(d: Dialect) -> Seq<char> {
    match d {
        Dialect::Mssql => "ADD"@,
        _ => "ADD COLUMN"@,
    }
}

/// The row-window clause.
pub open spec fn paginate_text(d: Dialect, limit: int, offset: int, has_sort: bool) -> Seq<char> {
    match d {
        Dialect::Mssql => (if has_sort {
            seq![]
        } else {
            " ORDER BY (SELECT NULL)"@
        }) + " OFFSET "@ + dec_int(offset) + " ROWS FETCH NEXT "@ + dec_int(limit)
            + " ROWS ONLY"@,
        _ => " LIMIT "@ + dec_int(limit) + " OFFSET "@ + dec_int(offset),
    }
}

/// Appends `s` with every `q` doubled.
fn push_doubling(out: &mut String, s: &[char], q: char)
    ensures
        final(out)@ == old(out)@ + replace_char(s@, q, seq![q, q]),
{
    let n = s.len();
    for i in 0..n
        invariant
            n == s@.len(),
            out@ == old(out)@ + replace_char(s@.take(i as int), q, seq![q, q]),
    {
        assert(s@.take(i + 1).drop_last() =~= s@.take(i as int));
        push_char(out, s[i]);
        if s[i] == q {
            push_char(out, q);
        }
        assert(out@ =~= old(out)@ + replace_char(s@.take(i + 1), q, seq![q, q]));
    }
    assert(s@.take(n as int) =~= s@);
}

impl Dialect {
    fn open_quote_char(&self) -> (c: char)
        ensures
            c == open_quote(*self),
    {
        match self {
            Dialect::Pg | Dialect::Sqlite => '"',
            Dialect::MySql => '`',
            Dialect::Mssql => '[',
        }
    }

    fn close_quote_char(&self) -> (c: char)
        ensures
            c == close_quote(*self),
    {
        match self {
            Dialect::Pg | Dialect::Sqlite => '"',
            Dialect::MySql => '`',
            Dialect::Mssql => ']',
        }
    }

    /// Bind placeholder for the nth parameter, counting from 1.
    pub fn placeholder(&self, n: usize) -> (r: String)
        ensures
            r@ == placeholder_text(*self, n as nat),
    {
        match self {
            Dialect::Pg => {
                let mut s = String::from_str("$");
                push_dec_u64(&mut s, n as u64);
                s
            },
            Dialect::Sqlite | Dialect::MySql => String::from_str("?"),
            Dialect::Mssql => {
                let mut s = String::from_str("@P");
                push_dec_u64(&mut s, n as u64);
                s
            },
        }
    }

    /// Quote an identifier so it is safe to interpolate.
    pub fn quote_ident(&self, name: &str) -> (r: String)
        ensures
            r@ == quote_text(*self, name@),
    {
        let chars = chars_of(name);
        let q = self.close_quote_char();
        let mut s = String::new();
        push_char(&mut s, self.open_quote_char());
        push_doubling(&mut s, chars.as_slice(), q);
        push_char(&mut s, q);
        s
    }

    /// Postgres types a bare `$n` as text, so the placeholder is cast to the
    /// column's declared type there; the other engines infer it.
    pub fn cast_ph(&self, placeholder: &str, data_type: &str) -> (r: String)
        ensures
            r@ == cast_text(*self, placeholder@, data_type@),
    {
        match self {
            Dialect::Pg => {
                let mut s = String::from_str("CAST(");
                s.append(placeholder);
                s.append(" AS ");
                s.append(data_type);
                s.append(")");
                s
            },
            _ => String::from_str(placeholder),
        }
    }

    /// Cast target for comparing any column as text.
    pub fn text_type(&self) -> (r: &'static str)
        ensures
            r@ == text_type_text(*self),
    {
        match self {
            Dialect::Pg | Dialect::Sqlite => "TEXT",
            Dialect::MySql => "CHAR",
            Dialect::Mssql => "NVARCHAR(MAX)",
        }
    }

    /// ILIKE only exists on Postgres; everywhere else LIKE is already
    /// case-insensitive, so it is downgraded.
    pub fn ilike(&self, op: &str) -> (r: String)
        ensures
            r@ == ilike_text(*self, op@),
    {
        match self {
            Dialect::Pg => String::from_str(op),
            _ => {
                let chars = chars_of(op);
                let pat = chars_of("ILIKE");
                proof {
                    reveal_strlit("ILIKE");
                }
                replace_str_vec(chars.as_slice(), pat.as_slice(), "LIKE")
            },
        }
    }

    /// SQL Server spells it `ALTER TABLE t ADD col type`, with no COLUMN.
    pub fn add_column_kw(&self) -> (r: &'static str)
        ensures
            r@ == add_column_kw_text(*self),
    {
        match self {
            Dialect::Mssql => "ADD",
            _ => "ADD COLUMN",
        }
    }

    /// The row-window clause. SQL Server's OFFSET…FETCH is only legal after
    /// an ORDER BY, so a no-op one is supplied when there was no sort.
    pub fn paginate(&self, limit: i64, offset: i64, has_sort: bool) -> (r: String)
        ensures
            r@ == paginate_text(*self, limit as int, offset as int, has_sort),
    {
        match self {
            Dialect::Mssql => {
                let mut s = if has_sort {
                    String::new()
                } else {
                    String::from_str(" ORDER BY (SELECT NULL)")
                };
                s.append(" OFFSET ");
                push_dec_i64(&mut s, offset);
                s.append(" ROWS FETCH NEXT ");
                push_dec_i64(&mut s, limit);
                s.append(" ROWS ONLY");
                s
            },
            _ => {
                let mut s = String::from_str(" LIMIT ");
                push_dec_i64(&mut s, limit);
                s.append(" OFFSET ");
                push_dec_i64(&mut s, offset);
                s
            },
        }
    }
}


/// A table, plus the schema it lives in (`None` where the engine has none).
#[derive(Debug, Clone)]
pub struct TableRef {
    pub schema: Option<String>,
    pub name: String,
}

/// One column of a table, as introspection reports it.
#[derive(Debug, Clone)]
pub struct ColumnInfo {
    pub name: String,
    pub data_type: String,
    pub nullable: bool,
    pub is_pk: bool,
}

/// A single-column foreign key, for "jump to the referenced row".
#[derive(Debug, Clone)]
pub struct ForeignKey {
    pub column: String,
    /// where the referenced table lives; a foreign key can cross schemas
    pub ref_schema: Option<String>,
    pub ref_table: String,
    pub ref_column: String,
}

/// One filter of the data grid: `column op value`.
#[derive(Debug, Clone)]
pub struct Filter {
    pub column: String,
    pub op: String,
    pub value: String,
}

/// The grid's sort column and direction.
#[derive(Debug, Clone)]
pub struct Sort {
    pub column: String,
    pub desc: bool,
}

/// What a statement gave back: column names and rows for a fetch, the
/// affected-row count for anything else.
#[derive(Debug, Clone)]
pub struct QueryResult {
    pub columns: Vec<String>,
    pub rows: Vec<Vec<JsonValue>>,
    pub rows_affected: u64,
}

/// A bindable value derived from a JSON value or a filter string. A float is
/// carried as the text it was read from; that text always parses as an
/// `f64`, and the driver binds the parsed value.
#[derive(Debug, Clone)]
pub enum Bind {
    Null,
    Bool(bool),
    Int(i64),
    Float(String),
    Text(String),
}

/// A bind as a value of the specification.
pub enum BindView {
    Null,
    Bool(bool),
    Int(i64),
    Float(Seq<char>),
    Text(Seq<char>),
}

impl View for Bind {
    type V = BindView;

    open spec fn view(&self) -> BindView {
        match self {
            Bind::Null => BindView::Null,
            Bind::Bool(b) => BindView::Bool(*b),
            Bind::Int(i) => BindView::Int(*i),
            Bind::Float(t) => BindView::Float(t@),
            Bind::Text(t) => BindView::Text(t@),
        }
    }
}

/// The views of a sequence of binds.
pub open spec fn bind_views(v: Seq<Bind>) -> Seq<BindView> {
    v.map_values(|b: Bind| b@)
}

/// The bind a JSON value becomes: arrays and objects go as their JSON text.
pub open spec fn bind_of_json(v: JsonValue) -> BindView {
    match v {
        JsonValue::Null => BindView::Null,
        JsonValue::Bool(b) => BindView::Bool(b),
        JsonValue::Int(i) => BindView::Int(i),
        JsonValue::Number(t) => BindView::Float(t@),
        JsonValue::Str(s) => BindView::Text(s@),
        JsonValue::Composite(t) => BindView::Text(t@),
    }
}

/// The column type names as an integer (lower-cased).
pub open spec fn is_int_type(t: Seq<char>) -> bool {
    contains(t, "int"@) || contains(t, "serial"@)
}

/// The column type names as a floating or fixed-point number (lower-cased).
pub open spec fn is_float_type(t: Seq<char>) -> bool {
    contains(t, "real"@) || contains(t, "double"@) || contains(t, "float"@) || contains(
        t,
        "numeric"@,
    ) || contains(t, "decimal"@)
}

/// The bind a filter value becomes for a column of the declared type: an
/// integer, a float or a boolean when the type says so and the text reads as
/// one, text otherwise.
pub open spec fn bind_for_column(data_type: Seq<char>, raw: Seq<char>) -> BindView {
    let t = lower(data_type);
    if is_int_type(t) && parse_i64(raw) is Some {
        BindView::Int(parse_i64(raw).unwrap())
    } else if is_float_type(t) && is_float_text(raw) {
        BindView::Float(raw)
    } else if contains(t, "bool"@) && parse_bool(raw) is Some {
        BindView::Bool(parse_bool(raw).unwrap())
    } else {
        BindView::Text(raw)
    }
}

fn contains_lit(t: &[char], lit: &str) -> (r: bool)
    ensures
        r == contains(t@, lit@),
{
    let p = chars_of(lit);
    vec_contains(t, p.as_slice())
}

/// `for_column` on character vectors.
pub fn for_column_chars(data_type: &[char], raw: &[char]) -> (b: Bind)
    ensures
        b@ == bind_for_column(data_type@, raw@),
{
    let t = lower_vec(data_type);
    let t = t.as_slice();
    if contains_lit(t, "int") || contains_lit(t, "serial") {
        if let Some(i) = parse_i64_exec(raw) {
            return Bind::Int(i);
        }
    }
    if contains_lit(t, "real") || contains_lit(t, "double") || contains_lit(t, "float")
        || contains_lit(t, "numeric") || contains_lit(t, "decimal") {
        if is_float_text_exec(raw) {
            return Bind::Float(string_of(raw));
        }
    }
    if contains_lit(t, "bool") {
        if let Some(b) = parse_bool_exec(raw) {
            return Bind::Bool(b);
        }
    }
    Bind::Text(string_of(raw))
}

/// The text `TableRef` shows in messages: `schema.table`, unquoted.
pub open spec fn display_text(t: TableRef) -> Seq<char> {
    match t.schema {
        Some(s) => s@ + "."@ + t.name@,
        None => t.name@,
    }
}

/// `t` as SQL: both parts quoted.
pub open spec fn quoted_text(d: Dialect, t: TableRef) -> Seq<char> {
    match t.schema {
        Some(s) => quote_text(d, s@) + "."@ + quote_text(d, t.name@),
        None => quote_text(d, t.name@),
    }
}

impl TableRef {
    /// `reporting.orders`, unquoted: for error messages, never for SQL.
    pub fn display_name(&self) -> (r: String)
        ensures
            r@ == display_text(*self),
    {
        match &self.schema {
            Some(s) => {
                let mut r = s.clone();
                r.append(".");
                r.append(self.name.as_str());
                r
            },
            None => self.name.clone(),
        }
    }

    /// `"public"."orders"`: both parts quoted, safe to interpolate.
    pub fn quoted(&self, d: Dialect) -> (r: String)
        ensures
            r@ == quoted_text(d, *self),
    {
        match &self.schema {
            Some(s) => {
                let mut r = d.quote_ident(s.as_str());
                r.append(".");
                let n = d.quote_ident(self.name.as_str());
                r.append(n.as_str());
                r
            },
            None => d.quote_ident(self.name.as_str()),
        }
    }
}

impl Bind {
    /// The bind for a JSON value; arrays and objects go as their JSON text.
    pub fn from_json(v: &JsonValue) -> (r: Result<Bind, String>)
        ensures
            r matches Ok(b) && b@ == bind_of_json(*v),
    {
        Ok(
            match v {
                JsonValue::Null => Bind::Null,
                JsonValue::Bool(b) => Bind::Bool(*b),
                JsonValue::Int(i) => Bind::Int(*i),
                JsonValue::Number(t) => Bind::Float(t.clone()),
                JsonValue::Str(s) => Bind::Text(s.clone()),
                JsonValue::Composite(t) => Bind::Text(t.clone()),
            },
        )
    }

    /// Choose a bind type for a filter value based on the column's declared
    /// type.
    pub fn for_column(data_type: &str, raw: &str) -> (b: Bind)
        ensures
            b@ == bind_for_column(data_type@, raw@),
    {
        let t = chars_of(data_type);
        let r = chars_of(raw);
        for_column_chars(t.as_slice(), r.as_slice())
    }
}

/// A character allowed in a new column's name.
pub open spec fn ident_char(c: char) -> bool {
    is_ascii_alnum(c) || c == '_' || c == ' '
}

/// A new column's name: 1 to 128 letters, digits, underscores and spaces,
/// not starting with a space.
pub open spec fn valid_ident_spec(s: Seq<char>) -> bool {
    &&& s.len() > 0
    &&& s.len() <= 128
    &&& forall|i: int| 0 <= i < s.len() ==> ident_char(#[trigger] s[i])
    &&& s[0] != ' '
}

/// Whether `name` may be used as a new column's name.
pub fn valid_ident(name: &str) -> (r: bool)
    ensures
        r == valid_ident_spec(name@),
{
    let s = chars_of(name);
    let n = s.len();
    if n == 0 || n > 128 {
        return false;
    }
    for i in 0..n
        invariant
            n == s@.len(),
            s@ == name@,
            forall|j: int| 0 <= j < i ==> ident_char(#[trigger] s@[j]),
    {
        let c = s[i];
        if !(('a' <= c && c <= 'z') || ('A' <= c && c <= 'Z') || ('0' <= c && c <= '9') || c == '_'
            || c == ' ') {
            assert(!ident_char(s@[i as int]));
            return false;
        }
    }
    s[0] != ' '
}

/// Whether a statement hands back rows: it starts, after leading whitespace
/// and ignoring ASCII case, with one of the keywords that fetch, or it has a
/// RETURNING clause.
pub open spec fn is_fetch_spec(sql: Seq<char>) -> bool {
    let head = lower(trim_start(sql));
    ||| starts_with(head, "select"@)
    ||| starts_with(head, "with"@)
    ||| starts_with(head, "pragma"@)
    ||| starts_with(head, "explain"@)
    ||| starts_with(head, "show"@)
    ||| starts_with(head, "values"@)
    ||| starts_with(head, "describe"@)
    ||| starts_with(head, "desc"@)
    ||| contains(head, "returning"@)
}

fn starts_with_lit(t: &[char], lit: &str) -> (r: bool)
    ensures
        r == starts_with(t@, lit@),
{
    let p = chars_of(lit);
    vec_starts_with(t, p.as_slice())
}

/// `s` without its leading whitespace, ASCII-lowered.
pub fn lowered_head(sql: &str) -> (r: Vec<char>)
    ensures
        r@ == lower(trim_start(sql@)),
{
    let s = chars_of(sql);
    let k = leading_ws_exec(s.as_slice());
    let t = skip_vec(s.as_slice(), k);
    lower_vec(t.as_slice())
}

/// Whether `sql` returns rows, so it is fetched rather than executed.
pub fn is_fetch(sql: &str) -> (r: bool)
    ensures
        r == is_fetch_spec(sql@),
{
    let head = lowered_head(sql);
    let h = head.as_slice();
    starts_with_lit(h, "select") || starts_with_lit(h, "with") || starts_with_lit(h, "pragma")
        || starts_with_lit(h, "explain") || starts_with_lit(h, "show") || starts_with_lit(
        h,
        "values",
    ) || starts_with_lit(h, "describe") || starts_with_lit(h, "desc") || contains_lit(
        h,
        "returning",
    )
}

/// The escape a LIKE pattern gives one literal character: the escape
/// character `!` and the wildcards `%` and `_` get a `!` in front.
pub open spec fn like_escape_char(c: char) -> Seq<char> {
    if c == '!' || c == '%' || c == '_' {
        seq!['!', c]
    } else {
        seq![c]
    }
}

/// `v` with every `!`, `%` and `_` escaped by a `!`.
pub open spec fn escape_like_text(v: Seq<char>) -> Seq<char>
    decreases v.len(),
{
    if v.len() == 0 {
        seq![]
    } else {
        like_escape_char(v[0]) + escape_like_text(v.drop_first())
    }
}

pub proof fn lemma_escape_like_push(v: Seq<char>, c: char)
    ensures
        escape_like_text(v.push(c)) == escape_like_text(v) + like_escape_char(c),
    decreases v.len(),
{
    if v.len() == 0 {
        assert(v.push(c).drop_first() =~= Seq::<char>::empty());
        assert(v.push(c)[0] == c);
        assert(escape_like_text(Seq::<char>::empty()) =~= Seq::<char>::empty());
        assert(escape_like_text(v) =~= Seq::<char>::empty());
        assert(escape_like_text(v.push(c)) =~= like_escape_char(c));
    } else {
        lemma_escape_like_push(v.drop_first(), c);
        assert(v.push(c).drop_first() =~= v.drop_first().push(c));
        assert(escape_like_text(v.push(c)) =~= escape_like_text(v) + like_escape_char(c));
    }
}

/// Appends `v` with LIKE wildcards neutralised.
fn push_escaped_like(out: &mut String, v: &[char])
    ensures
        final(out)@ == old(out)@ + escape_like_text(v@),
{
    let n = v.len();
    assert(v@.take(0) =~= Seq::<char>::empty());
    for i in 0..n
        invariant
            n == v@.len(),
            out@ == old(out)@ + escape_like_text(v@.take(i as int)),
    {
        let c = v[i];
        if c == '!' || c == '%' || c == '_' {
            push_char(out, '!');
        }
        push_char(out, c);
        proof {
            lemma_escape_like_push(v@.take(i as int), c);
            assert(v@.take(i + 1) =~= v@.take(i as int).push(c));
        }
        assert(out@ =~= old(out)@ + escape_like_text(v@.take(i + 1)));
    }
    assert(v@.take(n as int) =~= v@);
}

/// Neutralise the LIKE wildcards a user typed literally, for the operators
/// that build the pattern themselves. Paired with `ESCAPE '!'` in the SQL.
pub fn escape_like(v: &str) -> (r: String)
    ensures
        r@ == escape_like_text(v@),
{
    let chars = chars_of(v);
    let mut r = String::new();
    push_escaped_like(&mut r, chars.as_slice());
    r
}


// ---------------------------------------------------------------- filters

/// The index of the first column of `schema` named `name`.
pub open spec fn find_column(schema: Seq<ColumnInfo>, name: Seq<char>) -> Option<int>
    decreases schema.len(),
{
    if schema.len() == 0 {
        None
    } else {
        match find_column(schema.drop_last(), name) {
            Some(i) => Some(i),
            None => if schema.last().name@ == name {
                Some(schema.len() - 1)
            } else {
                None
            },
        }
    }
}

/// The declared type of the first column named `name`.
pub open spec fn column_type(schema: Seq<ColumnInfo>, name: Seq<char>) -> Option<Seq<char>> {
    match find_column(schema, name) {
        Some(i) => Some(schema[i].data_type@),
        None => None,
    }
}

/// The filter operators the grid offers, and the SQL each one stands for.
pub open spec fn op_sql(op: Seq<char>) -> Option<Seq<char>> {
    if op == "eq"@ {
        Some("="@)
    } else if op == "neq"@ {
        Some("!="@)
    } else if op == "lt"@ {
        Some("<"@)
    } else if op == "lte"@ {
        Some("<="@)
    } else if op == "gt"@ {
        Some(">"@)
    } else if op == "gte"@ {
        Some(">="@)
    } else if op == "like"@ {
        Some("LIKE"@)
    } else if op == "notlike"@ {
        Some("NOT LIKE"@)
    } else if op == "ilike"@ {
        Some("ILIKE"@)
    } else if op == "notilike"@ {
        Some("NOT ILIKE"@)
    } else if op == "contains"@ {
        Some("LIKE"@)
    } else if op == "startswith"@ {
        Some("LIKE"@)
    } else if op == "endswith"@ {
        Some("LIKE"@)
    } else if op == "in"@ {
        Some("IN"@)
    } else if op == "notin"@ {
        Some("NOT IN"@)
    } else if op == "null"@ {
        Some("IS NULL"@)
    } else if op == "notnull"@ {
        Some("IS NOT NULL"@)
    } else {
        None
    }
}

/// The operators whose pattern the library builds, escaping the value.
pub open spec fn is_wrapping_op(op: Seq<char>) -> bool {
    op == "contains"@ || op == "startswith"@ || op == "endswith"@
}

/// The operators that compare the column as text against a pattern.
pub open spec fn is_pattern_op(op: Seq<char>) -> bool {
    op == "like"@ || op == "notlike"@ || op == "ilike"@ || op == "notilike"@ || is_wrapping_op(op)
}

/// The pattern bound for a pattern operator: the escaped value wrapped in
/// `%` as the operator says, or the user's own pattern for raw LIKE/ILIKE.
pub open spec fn pattern_value(op: Seq<char>, v: Seq<char>) -> Seq<char> {
    if op == "contains"@ {
        "%"@ + escape_like_text(v) + "%"@
    } else if op == "startswith"@ {
        escape_like_text(v) + "%"@
    } else if op == "endswith"@ {
        "%"@ + escape_like_text(v)
    } else {
        v
    }
}

/// The values of an IN list: comma-separated, trimmed, empty ones dropped.
pub open spec fn in_items(v: Seq<char>) -> Seq<Seq<char>> {
    trimmed_nonempty(split_char(v, ','))
}

/// The `k` placeholders of an IN list whose first parameter is `n + 1`.
pub open spec fn in_holes(d: Dialect, data_type: Seq<char>, n: nat, k: nat) -> Seq<Seq<char>> {
    Seq::new(k, |j: int| cast_text(d, placeholder_text(d, (n + 1 + j) as nat), data_type))
}

/// The SQL of one filter and the values it binds, when `n` parameters are
/// already bound before it.
pub open spec fn filter_clause(schema: Seq<ColumnInfo>, f: Filter, d: Dialect, n: nat) -> Result<
    (Seq<char>, Seq<BindView>),
    Seq<char>,
> {
    match column_type(schema, f.column@) {
        None => Err("unknown column: "@ + f.column@),
        Some(dt) => match op_sql(f.op@) {
            None => Err("unknown op: "@ + f.op@),
            Some(sql_op) => {
                let col = quote_text(d, f.column@);
                if f.op@ == "null"@ || f.op@ == "notnull"@ {
                    Ok((col + " "@ + sql_op, seq![]))
                } else if f.op@ == "in"@ || f.op@ == "notin"@ {
                    let items = in_items(f.value@);
                    if items.len() == 0 {
                        Err(f.op@ + " needs a comma-separated list of values"@)
                    } else {
                        Ok(
                            (
                                col + " "@ + sql_op + " ("@ + join(
                                    in_holes(d, dt, n, items.len()),
                                    ", "@,
                                ) + ")"@,
                                Seq::new(items.len(), |j: int| bind_for_column(dt, items[j])),
                            ),
                        )
                    }
                } else if is_pattern_op(f.op@) {
                    Ok(
                        (
                            "CAST("@ + col + " AS "@ + text_type_text(d) + ") "@ + ilike_text(
                                d,
                                sql_op,
                            ) + " "@ + placeholder_text(d, n + 1) + (if is_wrapping_op(f.op@) {
                                " ESCAPE '!'"@
                            } else {
                                seq![]
                            }),
                            seq![BindView::Text(pattern_value(f.op@, f.value@))],
                        ),
                    )
                } else {
                    Ok(
                        (
                            col + " "@ + sql_op + " "@ + cast_text(
                                d,
                                placeholder_text(d, n + 1),
                                dt,
                            ),
                            seq![bind_for_column(dt, f.value@)],
                        ),
                    )
                }
            },
        },
    }
}

/// The SQL of each filter in turn, and every value they bind, numbered
/// in order; or the first error.
pub open spec fn where_parts(schema: Seq<ColumnInfo>, filters: Seq<Filter>, d: Dialect) -> Result<
    (Seq<Seq<char>>, Seq<BindView>),
    Seq<char>,
>
    decreases filters.len(),
{
    if filters.len() == 0 {
        Ok((seq![], seq![]))
    } else {
        match where_parts(schema, filters.drop_last(), d) {
            Err(e) => Err(e),
            Ok((parts, binds)) => match filter_clause(schema, filters.last(), d, binds.len()) {
                Err(e) => Err(e),
                Ok((part, more)) => Ok((parts.push(part), binds + more)),
            },
        }
    }
}

/// The WHERE clause for the filters' parts: nothing when there are none.
pub open spec fn where_text(parts: Seq<Seq<char>>) -> Seq<char> {
    if parts.len() == 0 {
        seq![]
    } else {
        " WHERE "@ + join(parts, " AND "@)
    }
}

/// The WHERE clause shared by the row query and the count query, and its
/// binds.
pub open spec fn where_spec(schema: Seq<ColumnInfo>, filters: Seq<Filter>, d: Dialect) -> Result<
    (Seq<char>, Seq<BindView>),
    Seq<char>,
> {
    match where_parts(schema, filters, d) {
        Ok((parts, binds)) => Ok((where_text(parts), binds)),
        Err(e) => Err(e),
    }
}

/// A built statement, or the error that stopped it, as a value of the
/// specification.
pub open spec fn statement_view(r: Result<(String, Vec<Bind>), String>) -> Result<
    (Seq<char>, Seq<BindView>),
    Seq<char>,
> {
    match r {
        Ok((s, b)) => Ok((s@, bind_views(b@))),
        Err(e) => Err(e@),
    }
}

pub proof fn lemma_find_column_prefix(schema: Seq<ColumnInfo>, name: Seq<char>, k: int)
    requires
        0 <= k <= schema.len(),
        find_column(schema.take(k), name) is Some,
    ensures
        find_column(schema, name) == find_column(schema.take(k), name),
    decreases schema.len() - k,
{
    if k < schema.len() {
        assert(schema.take(k + 1).drop_last() =~= schema.take(k));
        lemma_find_column_prefix(schema, name, k + 1);
    } else {
        assert(schema.take(k) =~= schema);
    }
}

pub proof fn lemma_where_parts_err(schema: Seq<ColumnInfo>, filters: Seq<Filter>, d: Dialect, k: int)
    requires
        0 <= k <= filters.len(),
        where_parts(schema, filters.take(k), d) is Err,
    ensures
        where_parts(schema, filters, d) == where_parts(schema, filters.take(k), d),
    decreases filters.len() - k,
{
    if k < filters.len() {
        assert(filters.take(k + 1).drop_last() =~= filters.take(k));
        lemma_where_parts_err(schema, filters, d, k + 1);
    } else {
        assert(filters.take(k) =~= filters);
    }
}

/// The index of the first column named `name`.
pub(crate) fn find_column_exec(schema: &[ColumnInfo], name: &str) -> (r: Option<usize>)
    ensures
        match r {
            Some(i) => find_column(schema@, name@) == Some(i as int) && i < schema@.len(),
            None => find_column(schema@, name@) is None,
        },
{
    let n = schema.len();
    assert(schema@.take(0) =~= Seq::<ColumnInfo>::empty());
    for i in 0..n
        invariant
            n == schema@.len(),
            find_column(schema@.take(i as int), name@) is None,
    {
        assert(schema@.take(i + 1).drop_last() =~= schema@.take(i as int));
        if str_eq(schema[i].name.as_str(), name) {
            proof {
                lemma_find_column_prefix(schema@, name@, i + 1);
            }
            return Some(i);
        }
    }
    assert(schema@.take(n as int) =~= schema@);
    None
}

fn op_sql_exec(op: &str) -> (r: Option<&'static str>)
    ensures
        match r {
            Some(s) => op_sql(op@) == Some(s@),
            None => op_sql(op@) is None,
        },
{
    if str_eq(op, "eq") {
        Some("=")
    } else if str_eq(op, "neq") {
        Some("!=")
    } else if str_eq(op, "lt") {
        Some("<")
    } else if str_eq(op, "lte") {
        Some("<=")
    } else if str_eq(op, "gt") {
        Some(">")
    } else if str_eq(op, "gte") {
        Some(">=")
    } else if str_eq(op, "like") {
        Some("LIKE")
    } else if str_eq(op, "notlike") {
        Some("NOT LIKE")
    } else if str_eq(op, "ilike") {
        Some("ILIKE")
    } else if str_eq(op, "notilike") {
        Some("NOT ILIKE")
    } else if str_eq(op, "contains") {
        Some("LIKE")
    } else if str_eq(op, "startswith") {
        Some("LIKE")
    } else if str_eq(op, "endswith") {
        Some("LIKE")
    } else if str_eq(op, "in") {
        Some("IN")
    } else if str_eq(op, "notin") {
        Some("NOT IN")
    } else if str_eq(op, "null") {
        Some("IS NULL")
    } else if str_eq(op, "notnull") {
        Some("IS NOT NULL")
    } else {
        None
    }
}

/// The SQL of one filter; its values are appended to `binds`.
fn filter_clause_exec(schema: &[ColumnInfo], f: &Filter, d: Dialect, binds: &mut Vec<Bind>) -> (r:
    Result<String, String>)
    ensures
        match r {
            Ok(part) => {
                &&& old(binds)@.len() <= final(binds)@.len()
                &&& final(binds)@.take(old(binds)@.len() as int) == old(binds)@
                &&& filter_clause(schema@, *f, d, old(binds)@.len()) matches Ok((p, b))
                &&& p == part@
                &&& b == bind_views(final(binds)@.skip(old(binds)@.len() as int))
            },
            Err(e) => filter_clause(schema@, *f, d, old(binds)@.len()) matches Err(m) && m == e@,
        },
{
    let ghost n = old(binds)@.len();
    let idx = match find_column_exec(schema, f.column.as_str()) {
        Some(i) => i,
        None => {
            let mut e = String::from_str("unknown column: ");
            e.append(f.column.as_str());
            return Err(e);
        },
    };
    let dt = schema[idx].data_type.as_str();
    let sql_op = match op_sql_exec(f.op.as_str()) {
        Some(o) => o,
        None => {
            let mut e = String::from_str("unknown op: ");
            e.append(f.op.as_str());
            return Err(e);
        },
    };
    let op = f.op.as_str();
    let mut part = d.quote_ident(f.column.as_str());
    if str_eq(op, "null") || str_eq(op, "notnull") {
        part.append(" ");
        part.append(sql_op);
        assert(binds@.skip(n as int) =~= Seq::<Bind>::empty());
        assert(binds@.take(n as int) =~= binds@);
        return Ok(part);
    }
    if str_eq(op, "in") || str_eq(op, "notin") {
        let vchars = chars_of(f.value.as_str());
        let items = comma_items(vchars.as_slice());
        if items.len() == 0 {
            let mut e = String::from_str(op);
            e.append(" needs a comma-separated list of values");
            return Err(e);
        }
        let dt_chars = chars_of(dt);
        let ghost dts = dt@;
        let ghost its = in_items(f.value@);
        let mut holes: Vec<String> = Vec::new();
        let k = items.len();
        for j in 0..k
            invariant
                k == items@.len(),
                vec_views(items@) == its,
                dt_chars@ == dts,
                dt@ == dts,
                binds@.len() == n + j,
                binds@.take(n as int) == old(binds)@,
                bind_views(binds@.skip(n as int)) == Seq::new(
                    j as nat,
                    |m: int| bind_for_column(dts, its[m]),
                ),
                views(holes@) == in_holes(d, dts, n, j as nat),
        {
            let ghost before = binds@;
            assert(its[j as int] == items@[j as int]@);
            let b = for_column_chars(dt_chars.as_slice(), items[j].as_slice());
            let ghost bb = b;
            binds.push(b);
            let ph = d.placeholder(binds.len());
            let hole = d.cast_ph(ph.as_str(), dt);
            let ghost hh = hole@;
            assert(hh == cast_text(d, placeholder_text(d, (n + 1 + j) as nat), dts));
            let ghost hbefore = holes@;
            holes.push(hole);
            assert(views(holes@) =~= views(hbefore).push(hh));
            assert(binds@.take(n as int) =~= before.take(n as int));
            assert(binds@.skip(n as int) =~= before.skip(n as int).push(bb));
            assert(bind_views(binds@.skip(n as int)) =~= bind_views(before.skip(n as int)).push(bb@));
            assert(bind_views(binds@.skip(n as int)) =~= Seq::new(
                (j + 1) as nat,
                |m: int| bind_for_column(dts, its[m]),
            ));
            assert(views(holes@) =~= in_holes(d, dts, n, (j + 1) as nat));
        }
        let joined = join_strings(&holes, ", ");
        part.append(" ");
        part.append(sql_op);
        part.append(" (");
        part.append(joined.as_str());
        part.append(")");
        return Ok(part);
    }
    if str_eq(op, "like") || str_eq(op, "notlike") || str_eq(op, "ilike") || str_eq(op, "notilike")
        || str_eq(op, "contains") || str_eq(op, "startswith") || str_eq(op, "endswith") {
        let wrapping = str_eq(op, "contains") || str_eq(op, "startswith") || str_eq(op, "endswith");
        let sql_op2 = d.ilike(sql_op);
        let vchars = chars_of(f.value.as_str());
        let mut value = String::new();
        if str_eq(op, "contains") {
            value.append("%");
            push_escaped_like(&mut value, vchars.as_slice());
            value.append("%");
        } else if str_eq(op, "startswith") {
            push_escaped_like(&mut value, vchars.as_slice());
            value.append("%");
        } else if str_eq(op, "endswith") {
            value.append("%");
            push_escaped_like(&mut value, vchars.as_slice());
        } else {
            value.append(f.value.as_str());
        }
        let mut s = String::from_str("CAST(");
        s.append(part.as_str());
        s.append(" AS ");
        s.append(d.text_type());
        s.append(") ");
        s.append(sql_op2.as_str());
        s.append(" ");
        binds.push(Bind::Text(value));
        let ph = d.placeholder(binds.len());
        s.append(ph.as_str());
        if wrapping {
            s.append(" ESCAPE '!'");
        }
        assert(binds@.take(n as int) =~= old(binds)@);
        assert(bind_views(binds@.skip(n as int)) =~= seq![BindView::Text(pattern_value(f.op@, f.value@))]);
        return Ok(s);
    }
    let vchars = chars_of(f.value.as_str());
    let dt_chars = chars_of(dt);
    binds.push(for_column_chars(dt_chars.as_slice(), vchars.as_slice()));
    let ph = d.placeholder(binds.len());
    let cast = d.cast_ph(ph.as_str(), dt);
    part.append(" ");
    part.append(sql_op);
    part.append(" ");
    part.append(cast.as_str());
    assert(binds@.take(n as int) =~= old(binds)@);
    assert(bind_views(binds@.skip(n as int)) =~= seq![bind_for_column(dt@, f.value@)]);
    Ok(part)
}


/// The WHERE clause shared by the row query and the count query: the one
/// place user input becomes SQL, so identifiers are checked against the live
/// schema and values are always bound.
fn build_where(schema: &[ColumnInfo], filters: &[Filter], d: Dialect) -> (r: Result<
    (String, Vec<Bind>),
    String,
>)
    ensures
        statement_view(r) == where_spec(schema@, filters@, d),
{
    let mut parts: Vec<String> = Vec::new();
    let mut binds: Vec<Bind> = Vec::new();
    let n = filters.len();
    assert(filters@.take(0) =~= Seq::<Filter>::empty());
    assert(views(parts@) =~= Seq::<Seq<char>>::empty());
    assert(bind_views(binds@) =~= Seq::<BindView>::empty());
    for i in 0..n
        invariant
            n == filters@.len(),
            where_parts(schema@, filters@.take(i as int), d) == Ok::<
                (Seq<Seq<char>>, Seq<BindView>),
                Seq<char>,
            >((views(parts@), bind_views(binds@))),
    {
        let ghost before = binds@;
        let ghost pbefore = parts@;
        assert(filters@.take(i + 1).drop_last() =~= filters@.take(i as int));
        assert(filters@.take(i + 1).last() == filters@[i as int]);
        match filter_clause_exec(schema, &filters[i], d, &mut binds) {
            Ok(part) => {
                parts.push(part);
                assert(views(parts@) =~= views(pbefore).push(parts@.last()@));
                assert(binds@ =~= before + binds@.skip(before.len() as int));
                assert(bind_views(binds@) =~= bind_views(before) + bind_views(
                    binds@.skip(before.len() as int),
                ));
            },
            Err(e) => {
                proof {
                    lemma_where_parts_err(schema@, filters@, d, i + 1);
                }
                return Err(e);
            },
        }
    }
    assert(filters@.take(n as int) =~= filters@);
    if parts.len() == 0 {
        return Ok((String::new(), binds));
    }
    let mut w = String::from_str(" WHERE ");
    let joined = join_strings(&parts, " AND ");
    w.append(joined.as_str());
    Ok((w, binds))
}

/// `SELECT count(*)` under the given filters, and its binds.
pub open spec fn count_spec(
    table: TableRef,
    schema: Seq<ColumnInfo>,
    filters: Seq<Filter>,
    d: Dialect,
) -> Result<(Seq<char>, Seq<BindView>), Seq<char>> {
    match where_spec(schema, filters, d) {
        Ok((w, binds)) => Ok(("SELECT count(*) FROM "@ + quoted_text(d, table) + w, binds)),
        Err(e) => Err(e),
    }
}

/// The row window of a select: none at all when `limit <= 0`, else at most
/// 10 000 rows from a non-negative offset.
pub open spec fn page_text(d: Dialect, limit: i64, offset: i64, has_sort: bool) -> Seq<char> {
    if limit > 0 {
        paginate_text(
            d,
            if limit < 10000 {
                limit as int
            } else {
                10000
            },
            if offset > 0 {
                offset as int
            } else {
                0
            },
            has_sort,
        )
    } else {
        seq![]
    }
}

/// The sort in a spec-level form.
pub open spec fn sort_of(sort: Option<&Sort>) -> Option<Sort> {
    match sort {
        Some(s) => Some(*s),
        None => None,
    }
}

/// `SELECT *` of a table under the filters, ordered by the sort column when
/// there is one, in the page given by `limit` and `offset`; and its binds.
pub open spec fn select_spec(
    table: TableRef,
    schema: Seq<ColumnInfo>,
    filters: Seq<Filter>,
    sort: Option<Sort>,
    limit: i64,
    offset: i64,
    d: Dialect,
) -> Result<(Seq<char>, Seq<BindView>), Seq<char>> {
    match where_spec(schema, filters, d) {
        Err(e) => Err(e),
        Ok((w, binds)) => {
            let head = "SELECT * FROM "@ + quoted_text(d, table) + w;
            match sort {
                None => Ok((head + page_text(d, limit, offset, false), binds)),
                Some(s) => match column_type(schema, s.column@) {
                    None => Err("unknown column: "@ + s.column@),
                    Some(_) => Ok(
                        (
                            head + " ORDER BY "@ + quote_text(d, s.column@) + " "@ + (if s.desc {
                                "DESC"@
                            } else {
                                "ASC"@
                            }) + page_text(d, limit, offset, true),
                            binds,
                        ),
                    ),
                },
            }
        },
    }
}

/// `SELECT count(*)` under the same filters, for the pager's total.
pub fn build_count(table: &TableRef, schema: &[ColumnInfo], filters: &[Filter], d: Dialect) -> (r:
    Result<(String, Vec<Bind>), String>)
    ensures
        statement_view(r) == count_spec(*table, schema@, filters@, d),
{
    let (where_sql, binds) = build_where(schema, filters, d)?;
    let mut sql = String::from_str("SELECT count(*) FROM ");
    let q = table.quoted(d);
    sql.append(q.as_str());
    sql.append(where_sql.as_str());
    Ok((sql, binds))
}

/// Build a SELECT. `schema` is the trusted column list: every identifier in
/// `filters` and `sort` must appear in it. `limit <= 0` means no LIMIT or
/// OFFSET at all, which is how export streams a whole table.
pub fn build_select(
    table: &TableRef,
    schema: &[ColumnInfo],
    filters: &[Filter],
    sort: Option<&Sort>,
    limit: i64,
    offset: i64,
    d: Dialect,
) -> (r: Result<(String, Vec<Bind>), String>)
    ensures
        statement_view(r) == select_spec(*table, schema@, filters@, sort_of(sort), limit, offset, d),
{
    let mut sql = String::from_str("SELECT * FROM ");
    let q = table.quoted(d);
    sql.append(q.as_str());
    let (where_sql, binds) = build_where(schema, filters, d)?;
    sql.append(where_sql.as_str());
    let mut has_sort = false;
    if let Some(s) = sort {
        if find_column_exec(schema, s.column.as_str()).is_none() {
            let mut e = String::from_str("unknown column: ");
            e.append(s.column.as_str());
            return Err(e);
        }
        sql.append(" ORDER BY ");
        let c = d.quote_ident(s.column.as_str());
        sql.append(c.as_str());
        sql.append(" ");
        sql.append(if s.desc {
            "DESC"
        } else {
            "ASC"
        });
        has_sort = true;
    }
    if limit > 0 {
        let lim = if limit < 10000 {
            limit
        } else {
            10000
        };
        let off = if offset > 0 {
            offset
        } else {
            0
        };
        let page = d.paginate(lim, off, has_sort);
        sql.append(page.as_str());
    }
    Ok((sql, binds))
}


// ---------------------------------------------------------------- bytes

/// A hexadecimal digit, lower case, for `v < 16`.
pub open spec fn hex_digit(v: nat) -> char {
    if v < 10 {
        ((48 + v) as u32) as char
    } else {
        ((87 + v) as u32) as char
    }
}

/// Two lower-case hexadecimal digits per byte.
pub open spec fn hex_text(b: Seq<u8>) -> Seq<char>
    decreases b.len(),
{
    if b.len() == 0 {
        seq![]
    } else {
        hex_text(b.drop_last()) + seq![
            hex_digit((b.last() / 16) as nat),
            hex_digit((b.last() % 16) as nat),
        ]
    }
}

fn hex_digit_exec(v: u8) -> (c: char)
    requires
        v < 16,
    ensures
        c == hex_digit(v as nat),
{
    if v < 10 {
        (48 + v) as char
    } else {
        (87 + v) as char
    }
}

/// The bytes as lower-case hexadecimal, two digits each.
pub fn hex_str(bytes: &[u8]) -> (r: String)
    ensures
        r@ == hex_text(bytes@),
{
    let mut r = String::new();
    let n = bytes.len();
    assert(bytes@.take(0) =~= Seq::<u8>::empty());
    for i in 0..n
        invariant
            n == bytes@.len(),
            r@ == hex_text(bytes@.take(i as int)),
    {
        let b = bytes[i];
        push_char(&mut r, hex_digit_exec(b / 16));
        push_char(&mut r, hex_digit_exec(b % 16));
        assert(bytes@.take(i + 1).drop_last() =~= bytes@.take(i as int));
        assert(r@ =~= hex_text(bytes@.take(i + 1)));
    }
    assert(bytes@.take(n as int) =~= bytes@);
    r
}

/// How a binary cell is shown: `\x` and its bytes in hexadecimal.
pub fn binary_text(bytes: &[u8]) -> (r: String)
    ensures
        r@ == "\\x"@ + hex_text(bytes@),
{
    let mut r = String::from_str("\\x");
    let h = hex_str(bytes);
    r.append(h.as_str());
    r
}

// ---------------------------------------------------------------- opening

/// How to reach a saved connection's database.
#[derive(Debug)]
#[allow(inconsistent_fields)]
pub enum ConnectPlan {
    Postgres {
        host: String,
        port: u16,
        database: String,
        username: String,
        password: Option<String>,
    },
    Sqlite { path: String },
    MySql {
        host: String,
        port: u16,
        database: String,
        username: String,
        password: Option<String>,
    },
    Mssql {
        host: String,
        instance: Option<String>,
        port: u16,
        database: String,
        username: String,
        password: String,
    },
}

/// An optional string, or a default.
pub open spec fn text_or(o: Option<String>, dflt: Seq<char>) -> Seq<char> {
    match o {
        Some(s) => s@,
        None => dflt,
    }
}

/// A stored port, or the engine's default, as a `u16` (the low 16 bits,
/// as `as u16` takes them).
pub open spec fn port_or(p: Option<i64>, dflt: i64) -> u16 {
    (match p {
        Some(x) => x,
        None => dflt,
    }) as u16
}

pub open spec fn opt_text(o: Option<String>) -> Option<Seq<char>> {
    match o {
        Some(s) => Some(s@),
        None => None,
    }
}

/// What opening `conn` asks of the driver, per engine: host, port and user
/// fall back to the engine's defaults; SQL Server splits a named instance off
/// the host and sends an empty password when none is stored. Any other
/// engine key is refused.
pub open spec fn connect_plan_ok(conn: Connection, password: Option<String>, p: ConnectPlan) -> bool {
    if conn.engine@ == "postgres"@ {
        p matches ConnectPlan::Postgres { host, port, database, username, password: pw } && host@
            == text_or(conn.host, "localhost"@) && port == port_or(conn.port, 5432) && database@
            == conn.database@ && username@ == text_or(conn.username, "postgres"@) && opt_text(pw)
            == opt_text(password)
    } else if conn.engine@ == "sqlite"@ {
        p matches ConnectPlan::Sqlite { path } && path@ == conn.database@
    } else if conn.engine@ == "mysql"@ {
        p matches ConnectPlan::MySql { host, port, database, username, password: pw } && host@
            == text_or(conn.host, "localhost"@) && port == port_or(conn.port, 3306) && database@
            == conn.database@ && username@ == text_or(conn.username, "root"@) && opt_text(pw)
            == opt_text(password)
    } else {
        p matches ConnectPlan::Mssql { host, instance, port, database, username, password: pw }
            && host@ == split_instance_spec(text_or(conn.host, "localhost"@)).0 && opt_text(instance)
            == split_instance_spec(text_or(conn.host, "localhost"@)).1 && port == port_or(
            conn.port,
            1433,
        ) && database@ == conn.database@ && username@ == text_or(conn.username, "sa"@) && pw@
            == text_or(password, seq![])
    }
}

/// The engine keys a connection can name.
pub open spec fn known_engine(e: Seq<char>) -> bool {
    e == "postgres"@ || e == "sqlite"@ || e == "mysql"@ || e == "mssql"@
}

fn string_or(o: &Option<String>, dflt: &str) -> (r: String)
    ensures
        r@ == text_or(*o, dflt@),
{
    match o {
        Some(s) => s.clone(),
        None => String::from_str(dflt),
    }
}

fn clone_opt(o: &Option<String>) -> (r: Option<String>)
    ensures
        opt_text(r) == opt_text(*o),
{
    match o {
        Some(s) => Some(s.clone()),
        None => None,
    }
}

/// What opening a saved connection takes, or the error for an unknown
/// engine.
pub fn connect_plan(conn: &Connection, password: Option<String>) -> (r: Result<ConnectPlan, String>)
    ensures
        known_engine(conn.engine@) ==> (r matches Ok(p) && connect_plan_ok(*conn, password, p)),
        !known_engine(conn.engine@) ==> (r matches Err(e) && e@ == "unknown engine: "@
            + conn.engine@),
{
    let engine = conn.engine.as_str();
    let port_of = |dflt: i64| -> (p: u16)
        ensures
            p == port_or(conn.port, dflt),
        {
            match conn.port {
                Some(x) => #[verifier::truncate] (x as u16),
                None => #[verifier::truncate] (dflt as u16),
            }
        };
    if crate::text::str_eq(engine, "postgres") {
        Ok(
            ConnectPlan::Postgres {
                host: string_or(&conn.host, "localhost"),
                port: port_of(5432),
                database: conn.database.clone(),
                username: string_or(&conn.username, "postgres"),
                password: clone_opt(&password),
            },
        )
    } else if crate::text::str_eq(engine, "sqlite") {
        Ok(ConnectPlan::Sqlite { path: conn.database.clone() })
    } else if crate::text::str_eq(engine, "mysql") {
        Ok(
            ConnectPlan::MySql {
                host: string_or(&conn.host, "localhost"),
                port: port_of(3306),
                database: conn.database.clone(),
                username: string_or(&conn.username, "root"),
                password: clone_opt(&password),
            },
        )
    } else if crate::text::str_eq(engine, "mssql") {
        let full = string_or(&conn.host, "localhost");
        let (host, instance) = split_instance(full.as_str());
        Ok(
            ConnectPlan::Mssql {
                host,
                instance,
                port: port_of(1433),
                database: conn.database.clone(),
                username: string_or(&conn.username, "sa"),
                password: match &password {
                    Some(pw) => pw.clone(),
                    None => String::new(),
                },
            },
        )
    } else {
        let mut e = String::from_str("unknown engine: ");
        e.append(engine);
        Err(e)
    }
}

} // verus!
