use dbelte::commands::{
    add_column_sql, build_delete, build_insert, build_update, cancel_statement,
    count_from_result, ensure_id, export_format, pk_where, typed_password, validate_new_column,
    Backend, ExportFormat,
};
use dbelte::db::{
    binary_text, build_count, build_select, connect_plan, escape_like, hex_str, is_fetch,
    valid_ident, Bind, ColumnInfo, ConnectPlan, Dialect, Filter, QueryResult, Sort, TableRef,
};
use dbelte::introspect::{
    columns_from_rows, first_primary_key, fks_from_rows, mysql_column, mysql_decoder, pg_decoder,
    single_column_fks, sqlite_column, table_binds, tables_from_rows, unknown_table, Decoder, FkRow,
};
use dbelte::json::{cell_text, JsonValue};
use dbelte::meta::{needs_engine_migration, should_record, Connection, HISTORY_LIMIT};
use dbelte::mssql;
use dbelte::valuemap::ValueMap;

fn t(name: &str) -> TableRef {
    TableRef { schema: None, name: name.into() }
}

fn col(name: &str, ty: &str, pk: bool) -> ColumnInfo {
    ColumnInfo { name: name.into(), data_type: ty.into(), nullable: !pk, is_pk: pk }
}

fn schema() -> Vec<ColumnInfo> {
    vec![col("id", "integer", true), col("name", "text", false), col("price", "numeric(10,2)", false), col("ok", "boolean", false)]
}

fn filter(column: &str, op: &str, value: &str) -> Filter {
    Filter { column: column.into(), op: op.into(), value: value.into() }
}

fn s(v: &str) -> JsonValue {
    JsonValue::Str(v.to_string())
}

// ---------- dialects ----------

#[test]
fn dialect_fragments() {
    assert_eq!(Dialect::Pg.cast_ph("$1", "uuid"), "CAST($1 AS uuid)");
    assert_eq!(Dialect::MySql.cast_ph("?", "uuid"), "?");
    assert_eq!(Dialect::Pg.text_type(), "TEXT");
    assert_eq!(Dialect::Sqlite.text_type(), "TEXT");
    assert_eq!(Dialect::MySql.text_type(), "CHAR");
    assert_eq!(Dialect::Mssql.text_type(), "NVARCHAR(MAX)");
    assert_eq!(Dialect::Mssql.add_column_kw(), "ADD");
    assert_eq!(Dialect::Pg.add_column_kw(), "ADD COLUMN");
    assert_eq!(Dialect::Pg.placeholder(10), "$10");
    assert_eq!(Dialect::Mssql.placeholder(123), "@P123");
}

#[test]
fn ilike_is_postgres_only() {
    assert_eq!(Dialect::Pg.ilike("NOT ILIKE"), "NOT ILIKE");
    assert_eq!(Dialect::Sqlite.ilike("ILIKE"), "LIKE");
    assert_eq!(Dialect::MySql.ilike("NOT ILIKE"), "NOT LIKE");
    assert_eq!(Dialect::Mssql.ilike("LIKE"), "LIKE");
}

#[test]
fn paginate_per_dialect() {
    assert_eq!(Dialect::Pg.paginate(50, 100, true), " LIMIT 50 OFFSET 100");
    assert_eq!(Dialect::Sqlite.paginate(-3, 0, false), " LIMIT -3 OFFSET 0");
    assert_eq!(
        Dialect::Mssql.paginate(10, 20, true),
        " OFFSET 20 ROWS FETCH NEXT 10 ROWS ONLY"
    );
    assert_eq!(
        Dialect::Mssql.paginate(10, 0, false),
        " ORDER BY (SELECT NULL) OFFSET 0 ROWS FETCH NEXT 10 ROWS ONLY"
    );
    assert_eq!(
        Dialect::Pg.paginate(i64::MAX, i64::MIN, false),
        " LIMIT 9223372036854775807 OFFSET -9223372036854775808"
    );
}

#[test]
fn quoting_doubles_the_closing_quote_only() {
    assert_eq!(Dialect::Sqlite.quote_ident(""), r#""""#);
    assert_eq!(Dialect::Mssql.quote_ident("[a]"), "[[a]]]");
    assert_eq!(Dialect::Pg.quote_ident(r#"a"."b"#), r#""a"".""b""#);
}

#[test]
fn quoted_tables_stay_distinct() {
    let qualified = TableRef { schema: Some("a".into()), name: "b".into() };
    let dotted = TableRef { schema: None, name: r#"a"."b"#.into() };
    let plain = TableRef { schema: None, name: "a.b".into() };
    assert_eq!(qualified.quoted(Dialect::Pg), r#""a"."b""#);
    assert_ne!(qualified.quoted(Dialect::Pg), dotted.quoted(Dialect::Pg));
    assert_ne!(qualified.quoted(Dialect::Pg), plain.quoted(Dialect::Pg));
    // the display form is for messages and does not tell them apart
    assert_eq!(qualified.display_name(), "a.b");
    assert_eq!(plain.display_name(), "a.b");
}

// ---------- identifiers and statements ----------

#[test]
fn valid_ident_edges() {
    assert!(valid_ident("order total_2"));
    assert!(!valid_ident(""));
    assert!(!valid_ident(" lead"));
    assert!(!valid_ident("semi;colon"));
    assert!(!valid_ident("dash-ed"));
    assert!(!valid_ident("é"));
    assert!(valid_ident(&"a".repeat(128)));
    assert!(!valid_ident(&"a".repeat(129)));
}

#[test]
fn fetch_detection() {
    assert!(is_fetch("  \n\tSELECT 1"));
    assert!(is_fetch("With x AS (SELECT 1) SELECT * FROM x"));
    assert!(is_fetch("pragma table_info(t)"));
    assert!(is_fetch("DESC t"));
    assert!(is_fetch("INSERT INTO t VALUES (1) RETURNING id"));
    assert!(!is_fetch("UPDATE t SET a = 1"));
    assert!(!is_fetch(""));
    assert!(mssql::is_fetch("EXEC sp_who"));
    assert!(mssql::is_fetch("INSERT INTO t OUTPUT inserted.id VALUES (1)"));
    assert!(!mssql::is_fetch("INSERT INTO t VALUES (1) RETURNING id"));
    assert!(!mssql::is_fetch("PRAGMA x"));
}

#[test]
fn like_escaping() {
    assert_eq!(escape_like("50%_off!"), "50!%!_off!!");
    assert_eq!(escape_like("plain"), "plain");
    let (_, b) =
        build_select(&t("t"), &schema(), &[filter("name", "startswith", "a_b")], None, 0, 0, Dialect::Pg)
            .unwrap();
    assert!(matches!(&b[0], Bind::Text(v) if v == "a!_b%"));
    let (sql, b) =
        build_select(&t("t"), &schema(), &[filter("name", "endswith", "%")], None, 0, 0, Dialect::MySql)
            .unwrap();
    assert_eq!(sql, "SELECT * FROM `t` WHERE CAST(`name` AS CHAR) LIKE ? ESCAPE '!'");
    assert!(matches!(&b[0], Bind::Text(v) if v == "%!%"));
}

#[test]
fn binds_follow_the_column_type() {
    assert!(matches!(Bind::for_column("BIGINT", "-42"), Bind::Int(-42)));
    assert!(matches!(Bind::for_column("serial", "+7"), Bind::Int(7)));
    assert!(matches!(Bind::for_column("integer", "9223372036854775808"), Bind::Text(_)));
    assert!(matches!(Bind::for_column("integer", "-9223372036854775808"), Bind::Int(i64::MIN)));
    assert!(matches!(Bind::for_column("integer", "abc"), Bind::Text(_)));
    assert!(matches!(Bind::for_column("numeric(10,2)", "1.5e3"), Bind::Float(t) if t == "1.5e3"));
    assert!(matches!(Bind::for_column("Double Precision", "-Infinity"), Bind::Float(_)));
    assert!(matches!(Bind::for_column("real", ".5"), Bind::Float(_)));
    assert!(matches!(Bind::for_column("real", "5."), Bind::Float(_)));
    assert!(matches!(Bind::for_column("real", "."), Bind::Text(_)));
    assert!(matches!(Bind::for_column("real", "1e"), Bind::Text(_)));
    assert!(matches!(Bind::for_column("real", " 1"), Bind::Text(_)));
    assert!(matches!(Bind::for_column("boolean", "true"), Bind::Bool(true)));
    assert!(matches!(Bind::for_column("boolean", "False"), Bind::Text(_)));
    assert!(matches!(Bind::for_column("text", "12"), Bind::Text(t) if t == "12"));
}

#[test]
fn float_binds_read_back_as_std_does() {
    for raw in ["1.5e3", "-0.25", "inf", "NaN", "+Infinity", "7", "3.", ".3E-2"] {
        match Bind::for_column("float", raw) {
            Bind::Float(t) => assert!(t.parse::<f64>().is_ok(), "{t}"),
            b => panic!("{raw} gave {b:?}"),
        }
    }
    for raw in ["", "e5", "1e+", "--1", "0x10", "1,5", "infinit"] {
        assert!(raw.parse::<f64>().is_err(), "{raw}");
        assert!(matches!(Bind::for_column("float", raw), Bind::Text(_)), "{raw}");
    }
}

#[test]
fn json_binds() {
    assert!(matches!(Bind::from_json(&JsonValue::Null), Ok(Bind::Null)));
    assert!(matches!(Bind::from_json(&JsonValue::Bool(true)), Ok(Bind::Bool(true))));
    assert!(matches!(Bind::from_json(&JsonValue::Int(-3)), Ok(Bind::Int(-3))));
    assert!(matches!(Bind::from_json(&JsonValue::Number("2.5".into())), Ok(Bind::Float(t)) if t == "2.5"));
    assert!(matches!(Bind::from_json(&s("x")), Ok(Bind::Text(t)) if t == "x"));
    assert!(matches!(Bind::from_json(&JsonValue::Composite("[1,2]".into())), Ok(Bind::Text(t)) if t == "[1,2]"));
}

#[test]
fn filter_errors() {
    let err = build_select(&t("t"), &schema(), &[filter("nope", "eq", "1")], None, 0, 0, Dialect::Pg)
        .unwrap_err();
    assert_eq!(err, "unknown column: nope");
    let err = build_select(&t("t"), &schema(), &[filter("id", "between", "1")], None, 0, 0, Dialect::Pg)
        .unwrap_err();
    assert_eq!(err, "unknown op: between");
    let err = build_select(&t("t"), &schema(), &[filter("id", "notin", ",")], None, 0, 0, Dialect::Pg)
        .unwrap_err();
    assert_eq!(err, "notin needs a comma-separated list of values");
    let sort = Sort { column: "zzz".into(), desc: false };
    let err = build_select(&t("t"), &schema(), &[], Some(&sort), 0, 0, Dialect::Pg).unwrap_err();
    assert_eq!(err, "unknown column: zzz");
    // the filters are checked before the sort
    let err = build_select(&t("t"), &schema(), &[filter("x", "eq", "1")], Some(&sort), 0, 0, Dialect::Pg)
        .unwrap_err();
    assert_eq!(err, "unknown column: x");
}

#[test]
fn null_ops_bind_nothing() {
    let f = [filter("name", "null", "ignored"), filter("ok", "notnull", "")];
    let (sql, binds) = build_count(&t("t"), &schema(), &f, Dialect::Sqlite).unwrap();
    assert_eq!(sql, r#"SELECT count(*) FROM "t" WHERE "name" IS NULL AND "ok" IS NOT NULL"#);
    assert!(binds.is_empty());
}

#[test]
fn placeholders_count_across_filters() {
    let f = [filter("id", "in", "4,5"), filter("name", "contains", "x"), filter("price", "lt", "9.5")];
    let (sql, binds) = build_count(&t("t"), &schema(), &f, Dialect::Mssql).unwrap();
    assert_eq!(
        sql,
        "SELECT count(*) FROM [t] WHERE [id] IN (@P1, @P2) AND CAST([name] AS NVARCHAR(MAX)) LIKE @P3 ESCAPE '!' AND [price] < @P4"
    );
    assert_eq!(binds.len(), 4);
    assert!(matches!(&binds[3], Bind::Float(t) if t == "9.5"));
}

#[test]
fn user_values_never_change_the_sql() {
    let a = [filter("name", "eq", "x"), filter("id", "in", "1,2"), filter("name", "like", "%")];
    let b = [
        filter("name", "eq", "'; DROP TABLE t; --"),
        filter("id", "in", " 9 , , 10 "),
        filter("name", "like", "\"quoted\""),
    ];
    let (sa, ba) = build_select(&t("t"), &schema(), &a, None, 10, 0, Dialect::Pg).unwrap();
    let (sb, bb) = build_select(&t("t"), &schema(), &b, None, 10, 0, Dialect::Pg).unwrap();
    assert_eq!(sa, sb);
    assert_eq!(ba.len(), bb.len());
}

#[test]
fn count_and_select_bind_the_same_values() {
    let f = [filter("name", "contains", "bo"), filter("id", "gt", "3")];
    let sort = Sort { column: "name".into(), desc: false };
    let (select, sb) = build_select(&t("t"), &schema(), &f, Some(&sort), 25, 50, Dialect::Pg).unwrap();
    let (count, cb) = build_count(&t("t"), &schema(), &f, Dialect::Pg).unwrap();
    assert_eq!(format!("{:?}", sb), format!("{:?}", cb));
    let where_clause = count.trim_start_matches(r#"SELECT count(*) FROM "t""#);
    assert!(select.contains(where_clause));
    assert!(select.ends_with(r#" ORDER BY "name" ASC LIMIT 25 OFFSET 50"#), "{select}");
}

#[test]
fn page_bounds() {
    let (sql, _) = build_select(&t("t"), &schema(), &[], None, 50_000, -7, Dialect::Pg).unwrap();
    assert_eq!(sql, r#"SELECT * FROM "t" LIMIT 10000 OFFSET 0"#);
    let (sql, _) = build_select(&t("t"), &schema(), &[], None, -1, 500, Dialect::Pg).unwrap();
    assert_eq!(sql, r#"SELECT * FROM "t""#);
}

// ---------- row edits ----------

fn key(pairs: &[(&str, JsonValue)]) -> ValueMap {
    let mut m = ValueMap::new();
    for (k, v) in pairs {
        m.insert(k.to_string(), v.clone());
    }
    m
}

#[test]
fn value_map_keeps_one_entry_per_name() {
    let mut m = key(&[("a", JsonValue::Int(1)), ("b", s("x"))]);
    m.insert("a".to_string(), JsonValue::Int(2));
    assert_eq!(m.len(), 2);
    assert!(m.contains_key("b"));
    assert!(!m.contains_key("c"));
    assert!(matches!(m.get("a"), Some(JsonValue::Int(2))));
    assert_eq!(m.entries()[0].0, "a");
}

#[test]
fn key_errors() {
    let no_pk = vec![col("a", "text", false)];
    assert_eq!(
        pk_where(&no_pk, &key(&[]), Dialect::Pg, 1).unwrap_err(),
        "table has no primary key — editing disabled"
    );
    let extra = key(&[("id", JsonValue::Int(1)), ("name", s("n"))]);
    assert_eq!(
        pk_where(&schema(), &extra, Dialect::Pg, 1).unwrap_err(),
        "primary key values must name every key column"
    );
    let wrong = key(&[("name", s("n"))]);
    assert!(pk_where(&schema(), &wrong, Dialect::Pg, 1).is_err());
}

#[test]
fn update_binds_the_value_then_the_key() {
    let k = key(&[("id", JsonValue::Int(7))]);
    let (sql, binds) =
        build_update(&t("t"), &schema(), "name", &s("new"), &k, Dialect::Pg).unwrap();
    assert_eq!(
        sql,
        r#"UPDATE "t" SET "name" = CAST($1 AS text) WHERE "id" = CAST($2 AS integer)"#
    );
    assert!(matches!(&binds[0], Bind::Text(v) if v == "new"));
    assert!(matches!(&binds[1], Bind::Int(7)));
    assert_eq!(
        build_update(&t("t"), &schema(), "nope", &s("v"), &k, Dialect::Pg).unwrap_err(),
        "unknown column: nope"
    );
}

#[test]
fn delete_names_the_row() {
    let k = key(&[("id", JsonValue::Int(7))]);
    let (sql, binds) = build_delete(&t("t"), &schema(), &k, Dialect::MySql).unwrap();
    assert_eq!(sql, "DELETE FROM `t` WHERE `id` = ?");
    assert_eq!(binds.len(), 1);
}

#[test]
fn insert_lists_every_value() {
    let v = key(&[("name", s("bob")), ("price", JsonValue::Number("9.99".into()))]);
    let (sql, binds) = build_insert(&t("t"), &schema(), &v, Dialect::Mssql).unwrap();
    assert_eq!(sql, "INSERT INTO [t] ([name], [price]) VALUES (@P1, @P2)");
    assert_eq!(binds.len(), 2);
    assert_eq!(build_insert(&t("t"), &schema(), &key(&[]), Dialect::Pg).unwrap_err(), "no values");
    let bad = key(&[("ghost", JsonValue::Null)]);
    assert_eq!(
        build_insert(&t("t"), &schema(), &bad, Dialect::Pg).unwrap_err(),
        "unknown column: ghost"
    );
}

// ---------- ddl ----------

#[test]
fn new_column_checks() {
    assert!(validate_new_column("total", "numeric(12,4)").is_ok());
    assert!(validate_new_column("tags", "text[]").is_ok());
    assert_eq!(validate_new_column(" bad", "text").unwrap_err(), "invalid column name");
    assert_eq!(validate_new_column("ok", "").unwrap_err(), "invalid column type");
    assert_eq!(validate_new_column("ok", "text; DROP").unwrap_err(), "invalid column type");
}

#[test]
fn add_column_statements() {
    let table = TableRef { schema: Some("s".into()), name: "t".into() };
    assert_eq!(
        add_column_sql(&table, "n", "integer", false, &Some("42".into()), Dialect::Pg),
        r#"ALTER TABLE "s"."t" ADD COLUMN "n" integer NOT NULL DEFAULT 42"#
    );
    assert_eq!(
        add_column_sql(&t("t"), "n", "text", true, &Some("it's".into()), Dialect::Mssql),
        "ALTER TABLE [t] ADD [n] text DEFAULT 'it''s'"
    );
    assert_eq!(
        add_column_sql(&t("t"), "n", "text", true, &Some(String::new()), Dialect::Sqlite),
        r#"ALTER TABLE "t" ADD COLUMN "n" text"#
    );
    assert_eq!(
        add_column_sql(&t("t"), "n", "text", true, &None, Dialect::MySql),
        "ALTER TABLE `t` ADD COLUMN `n` text"
    );
}

// ---------- results and ids ----------

fn result(rows: Vec<Vec<JsonValue>>) -> QueryResult {
    QueryResult { columns: vec!["count".into()], rows, rows_affected: 0 }
}

#[test]
fn pager_count() {
    assert_eq!(count_from_result(&result(vec![vec![JsonValue::Int(2731)]])), 2731);
    assert_eq!(count_from_result(&result(vec![vec![s("42")]])), 42);
    assert_eq!(count_from_result(&result(vec![vec![s("forty")]])), 0);
    assert_eq!(count_from_result(&result(vec![vec![JsonValue::Number("1.5".into())]])), 0);
    assert_eq!(count_from_result(&result(vec![])), 0);
    assert_eq!(count_from_result(&result(vec![vec![]])), 0);
}

#[test]
fn cell_texts() {
    assert_eq!(cell_text(&JsonValue::Null), "");
    assert_eq!(cell_text(&JsonValue::Bool(false)), "false");
    assert_eq!(cell_text(&JsonValue::Int(-12)), "-12");
    assert_eq!(cell_text(&JsonValue::Number("9.99".into())), "9.99");
    assert_eq!(cell_text(&s("a,b")), "a,b");
    assert_eq!(cell_text(&JsonValue::Composite("{\"tier\":\"gold\"}".into())), "{\"tier\":\"gold\"}");
}

#[test]
fn cancel_statements() {
    assert_eq!(
        cancel_statement(&Backend::Pg(4242), Dialect::Pg).as_deref(),
        Some("SELECT pg_cancel_backend($1)")
    );
    assert_eq!(
        cancel_statement(&Backend::MySql(18446744073709551615), Dialect::MySql).as_deref(),
        Some("KILL QUERY 18446744073709551615")
    );
    assert_eq!(cancel_statement(&Backend::MySql(1), Dialect::Pg), None);
    assert_eq!(cancel_statement(&Backend::Pg(1), Dialect::Sqlite), None);
}

#[test]
fn ids_are_kept_or_fresh() {
    assert_eq!(ensure_id("abc".to_string()), "abc");
    let a = ensure_id(String::new());
    let b = ensure_id(String::new());
    assert_eq!(a.len(), 36);
    assert_eq!(a.as_bytes()[14], b'4');
    assert!(matches!(a.as_bytes()[19], b'8' | b'9' | b'a' | b'b'));
    for (i, c) in a.chars().enumerate() {
        if [8, 13, 18, 23].contains(&i) {
            assert_eq!(c, '-');
        } else {
            assert!(c.is_ascii_hexdigit() && !c.is_ascii_uppercase());
        }
    }
    assert_ne!(a, b);
}

#[test]
fn hex_of_bytes() {
    assert_eq!(hex_str(&[]), "");
    assert_eq!(hex_str(&[0x01, 0x02, 0xab, 0xff]), "0102abff");
    assert_eq!(binary_text(&[1, 2]), "\\x0102");
}

// ---------- connections ----------

fn conn(engine: &str, host: Option<&str>, port: Option<i64>, user: Option<&str>) -> Connection {
    Connection {
        id: String::new(),
        name: "c".into(),
        engine: engine.into(),
        host: host.map(Into::into),
        port,
        database: "shop".into(),
        username: user.map(Into::into),
    }
}

#[test]
fn connect_plans() {
    match connect_plan(&conn("postgres", None, None, None), None).unwrap() {
        ConnectPlan::Postgres { host, port, database, username, password } => {
            assert_eq!((host.as_str(), port, database.as_str(), username.as_str()), ("localhost", 5432, "shop", "postgres"));
            assert!(password.is_none());
        }
        p => panic!("{p:?}"),
    }
    match connect_plan(&conn("mysql", Some("db"), Some(13306), Some("root")), Some("pw".into())).unwrap() {
        ConnectPlan::MySql { host, port, password, .. } => {
            assert_eq!((host.as_str(), port, password.as_deref()), ("db", 13306, Some("pw")));
        }
        p => panic!("{p:?}"),
    }
    match connect_plan(&conn("mssql", Some("srv\\SQLEXPRESS"), Some(70000), None), None).unwrap() {
        ConnectPlan::Mssql { host, instance, port, username, password, .. } => {
            assert_eq!(host, "srv");
            assert_eq!(instance.as_deref(), Some("SQLEXPRESS"));
            assert_eq!(port, 70000u32 as u16);
            assert_eq!(username, "sa");
            assert_eq!(password, "");
        }
        p => panic!("{p:?}"),
    }
    match connect_plan(&conn("sqlite", None, None, None), None).unwrap() {
        ConnectPlan::Sqlite { path } => assert_eq!(path, "shop"),
        p => panic!("{p:?}"),
    }
    assert_eq!(
        connect_plan(&conn("oracle", None, None, None), None).unwrap_err(),
        "unknown engine: oracle"
    );
}

#[test]
fn named_instances() {
    let (h, i) = mssql::split_instance("a\\b\\c");
    assert_eq!((h.as_str(), i.as_deref()), ("a", Some("b\\c")));
    let (h, i) = mssql::split_instance("host");
    assert_eq!((h.as_str(), i), ("host", None));
}

// ---------- catalog rows ----------

#[test]
fn catalog_tables() {
    let rows = vec![
        vec![s("public"), s("orders")],
        vec![s("sales"), JsonValue::Null],
        vec![s("only")],
    ];
    let q = tables_from_rows(&rows, true);
    assert_eq!(q.len(), 1);
    assert_eq!((q[0].schema.as_deref(), q[0].name.as_str()), (Some("public"), "orders"));
    let u = tables_from_rows(&rows, false);
    assert_eq!(u.len(), 3);
    assert!(u.iter().all(|t| t.schema.is_none()));
}

#[test]
fn catalog_columns() {
    let table = TableRef { schema: Some("dbo".into()), name: "x".into() };
    assert_eq!(columns_from_rows(&table, &vec![]).unwrap_err(), "unknown table: dbo.x");
    let rows = vec![
        vec![s("id"), s("int"), JsonValue::Bool(false), JsonValue::Bool(true)],
        vec![s("note"), s("nvarchar(max)"), JsonValue::Null, JsonValue::Null],
        vec![s("short"), s("int"), JsonValue::Bool(true)],
    ];
    let cols = columns_from_rows(&table, &rows).unwrap();
    assert_eq!(cols.len(), 2);
    assert!(cols[0].is_pk && !cols[0].nullable);
    assert!(!cols[1].is_pk && cols[1].nullable);
    let b = table_binds(&t("orders"));
    assert!(matches!(&b[0], Bind::Text(v) if v == "dbo"));
    assert!(matches!(&b[1], Bind::Text(v) if v == "orders"));
}

#[test]
fn catalog_foreign_keys() {
    let rows = vec![
        vec![s("customer_id"), s("dbo"), s("customers"), s("id")],
        vec![s("x"), JsonValue::Null, s("y"), s("z")],
    ];
    let fks = fks_from_rows(&rows);
    assert_eq!(fks.len(), 1);
    assert_eq!(fks[0].ref_schema.as_deref(), Some("dbo"));
    let listed = vec![
        FkRow { key: "0".into(), column: "user_id".into(), ref_table: "users".into(), ref_column: None },
        FkRow { key: "1".into(), column: "a".into(), ref_table: "pairs".into(), ref_column: Some("x".into()) },
        FkRow { key: "1".into(), column: "b".into(), ref_table: "pairs".into(), ref_column: Some("y".into()) },
    ];
    let single = single_column_fks(&listed);
    assert_eq!(single.len(), 1);
    assert_eq!(single[0].column, "user_id");
    assert_eq!(first_primary_key(&schema()).as_deref(), Some("id"));
    assert_eq!(first_primary_key(&[col("a", "text", false)]), None);
}

#[test]
fn catalog_columns_per_engine() {
    assert_eq!(unknown_table(&t("ghost")), "unknown table: ghost");
    let q = TableRef { schema: Some("public".into()), name: "orders".into() };
    assert_eq!(unknown_table(&q), "unknown table: public.orders");
    let c = sqlite_column("id".into(), "INTEGER".into(), 1, 1);
    assert_eq!((c.name.as_str(), c.data_type.as_str(), c.nullable, c.is_pk), ("id", "INTEGER", false, true));
    let c = sqlite_column("note".into(), "TEXT".into(), 0, 0);
    assert!(c.nullable && !c.is_pk);
    // composite keys number their columns from 1
    assert!(sqlite_column("b".into(), "INT".into(), 1, 2).is_pk);
    let c = mysql_column("id".into(), "int unsigned".into(), "NO", "PRI");
    assert_eq!((c.data_type.as_str(), c.nullable, c.is_pk), ("int unsigned", false, true));
    let c = mysql_column("email".into(), "varchar(255)".into(), "YES", "UNI");
    assert!(c.nullable && !c.is_pk);
    assert!(!mysql_column("x".into(), "int".into(), "yes", "pri").nullable);
}

#[test]
fn decoders_follow_the_reported_type() {
    assert_eq!(pg_decoder("INT2"), Decoder::I16);
    assert_eq!(pg_decoder("INT4"), Decoder::I32);
    assert_eq!(pg_decoder("INT8"), Decoder::I64);
    assert_eq!(pg_decoder("FLOAT8"), Decoder::F64);
    assert_eq!(pg_decoder("NUMERIC"), Decoder::Decimal);
    assert_eq!(pg_decoder("BOOL"), Decoder::Bool);
    assert_eq!(pg_decoder("UUID"), Decoder::Uuid);
    assert_eq!(pg_decoder("JSON"), Decoder::Json);
    assert_eq!(pg_decoder("JSONB"), Decoder::Json);
    assert_eq!(pg_decoder("TIMESTAMP"), Decoder::DateTime);
    assert_eq!(pg_decoder("TIMESTAMPTZ"), Decoder::DateTimeUtc);
    assert_eq!(pg_decoder("BYTEA"), Decoder::Bytes);
    assert_eq!(pg_decoder("TEXT"), Decoder::Text);
    assert_eq!(pg_decoder("int4"), Decoder::Text);
    assert_eq!(mysql_decoder("BOOLEAN"), Decoder::Bool);
    assert_eq!(mysql_decoder("TINYINT"), Decoder::I8);
    assert_eq!(mysql_decoder("MEDIUMINT"), Decoder::I32);
    assert_eq!(mysql_decoder("INT UNSIGNED"), Decoder::U32);
    assert_eq!(mysql_decoder("BIGINT UNSIGNED"), Decoder::U64);
    assert_eq!(mysql_decoder("DOUBLE"), Decoder::F64);
    assert_eq!(mysql_decoder("TIMESTAMP"), Decoder::DateTime);
    assert_eq!(mysql_decoder("VARBINARY"), Decoder::Bytes);
    assert_eq!(mysql_decoder("VARCHAR"), Decoder::Text);
    assert_eq!(mysql_decoder("BOOL"), Decoder::Text);
}

// ---------- history ----------

#[test]
fn history_rules() {
    assert_eq!(HISTORY_LIMIT, 50);
    assert!(!should_record(Some("SELECT 1"), "SELECT 1"));
    assert!(should_record(Some("SELECT 1"), "SELECT 2"));
    assert!(should_record(None, "SELECT 1"));
    assert!(needs_engine_migration(Some(
        "CREATE TABLE connections (engine TEXT NOT NULL CHECK(engine IN ('postgres','sqlite')))"
    )));
    assert!(!needs_engine_migration(Some("CREATE TABLE connections (engine TEXT NOT NULL)")));
    assert!(!needs_engine_migration(None));
}

#[test]
fn form_inputs() {
    assert_eq!(typed_password(Some("pw".into())).as_deref(), Some("pw"));
    assert_eq!(typed_password(Some(String::new())), None);
    assert_eq!(typed_password(None), None);
    assert_eq!(export_format("csv"), Ok(ExportFormat::Csv));
    assert_eq!(export_format("json"), Ok(ExportFormat::Json));
    assert_eq!(export_format("xlsx"), Err("unknown format: xlsx".to_string()));
}
