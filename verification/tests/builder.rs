use dbelte::db::{build_count, build_select, Bind, ColumnInfo, Dialect, Filter, Sort, TableRef};

/// unqualified table, the SQLite shape
fn t(name: &str) -> TableRef {
    TableRef { schema: None, name: name.into() }
}

fn schema() -> Vec<ColumnInfo> {
    vec![
        ColumnInfo {
            name: "id".into(),
            data_type: "integer".into(),
            nullable: false,
            is_pk: true,
        },
        ColumnInfo {
            name: "name".into(),
            data_type: "text".into(),
            nullable: true,
            is_pk: false,
        },
    ]
}

#[test]
fn quotes_identifiers() {
    assert_eq!(Dialect::Pg.quote_ident(r#"we"ird"#), r#""we""ird""#);
}

#[test]
fn rejects_unknown_column() {
    let f = [Filter {
        column: "name; DROP TABLE x".into(),
        op: "eq".into(),
        value: "a".into(),
    }];
    assert!(build_select(&t("t"), &schema(), &f, None, 100, 0, Dialect::Pg).is_err());
}

#[test]
fn rejects_unknown_op() {
    let f = [Filter {
        column: "name".into(),
        op: "= 1 OR 1=1 --".into(),
        value: "a".into(),
    }];
    assert!(build_select(&t("t"), &schema(), &f, None, 100, 0, Dialect::Pg).is_err());
}

#[test]
fn builds_pg_select() {
    let f = [
        Filter {
            column: "id".into(),
            op: "gte".into(),
            value: "5".into(),
        },
        Filter {
            column: "name".into(),
            op: "like".into(),
            value: "%bob%".into(),
        },
    ];
    let sort = Sort {
        column: "id".into(),
        desc: true,
    };
    let (sql, binds) =
        build_select(&t("users"), &schema(), &f, Some(&sort), 50, 100, Dialect::Pg).unwrap();
    assert_eq!(
        sql,
        r#"SELECT * FROM "users" WHERE "id" >= CAST($1 AS integer) AND CAST("name" AS TEXT) LIKE $2 ORDER BY "id" DESC LIMIT 50 OFFSET 100"#
    );
    assert!(matches!(binds[0], Bind::Int(5)));
    assert!(matches!(binds[1], Bind::Text(_)));
}

#[test]
fn ilike_downgrades_to_like_on_sqlite() {
    let f = [Filter {
        column: "name".into(),
        op: "ilike".into(),
        value: "%bob%".into(),
    }];
    let (pg, _) = build_select(&t("t"), &schema(), &f, None, 10, 0, Dialect::Pg).unwrap();
    assert!(pg.contains(r#"CAST("name" AS TEXT) ILIKE $1"#), "{pg}");
    let (lite, _) = build_select(&t("t"), &schema(), &f, None, 10, 0, Dialect::Sqlite).unwrap();
    assert!(lite.contains(r#"CAST("name" AS TEXT) LIKE ?"#), "{lite}");
    assert!(!lite.contains("ILIKE"), "{lite}");
}

#[test]
fn contains_wraps_and_escapes_wildcards() {
    let f = [Filter {
        column: "name".into(),
        op: "contains".into(),
        value: "50%_off".into(),
    }];
    let (sql, binds) = build_select(&t("t"), &schema(), &f, None, 10, 0, Dialect::Pg).unwrap();
    assert!(sql.contains("LIKE $1 ESCAPE '!'"), "{sql}");
    match &binds[0] {
        Bind::Text(v) => assert_eq!(v, "%50!%!_off%"),
        b => panic!("expected text bind, got {b:?}"),
    }
}

#[test]
fn in_expands_to_one_placeholder_per_value() {
    let f = [Filter {
        column: "id".into(),
        op: "in".into(),
        value: "1, 2,3".into(),
    }];
    let (sql, binds) = build_select(&t("t"), &schema(), &f, None, 10, 0, Dialect::Pg).unwrap();
    assert!(
        sql.contains(
            r#""id" IN (CAST($1 AS integer), CAST($2 AS integer), CAST($3 AS integer))"#
        ),
        "{sql}"
    );
    assert_eq!(binds.len(), 3);
    assert!(matches!(binds[2], Bind::Int(3)));
}

#[test]
fn in_rejects_empty_list() {
    let f = [Filter {
        column: "id".into(),
        op: "in".into(),
        value: " , ".into(),
    }];
    assert!(build_select(&t("t"), &schema(), &f, None, 10, 0, Dialect::Pg).is_err());
}

#[test]
fn count_reuses_the_filters_and_skips_limit() {
    let f = [Filter {
        column: "name".into(),
        op: "eq".into(),
        value: "bob".into(),
    }];
    let (sql, binds) = build_count(&t("t"), &schema(), &f, Dialect::Pg).unwrap();
    assert_eq!(
        sql,
        r#"SELECT count(*) FROM "t" WHERE "name" = CAST($1 AS text)"#
    );
    assert_eq!(binds.len(), 1);
    let (bare, _) = build_count(&t("t"), &schema(), &[], Dialect::Pg).unwrap();
    assert_eq!(bare, r#"SELECT count(*) FROM "t""#);
}

#[test]
fn zero_limit_means_no_limit_clause() {
    let (sql, _) = build_select(&t("t"), &schema(), &[], None, 0, 0, Dialect::Pg).unwrap();
    assert!(!sql.contains("LIMIT"), "{sql}");
}

#[test]
fn qualified_table_quotes_both_parts() {
    let table = TableRef { schema: Some("reporting".into()), name: "orders".into() };
    let (sql, _) = build_select(&table, &schema(), &[], None, 10, 0, Dialect::Pg).unwrap();
    assert!(sql.starts_with(r#"SELECT * FROM "reporting"."orders""#), "{sql}");
    let (count, _) = build_count(&table, &schema(), &[], Dialect::Pg).unwrap();
    assert_eq!(count, r#"SELECT count(*) FROM "reporting"."orders""#);
}

#[test]
fn mssql_paginates_with_offset_fetch_and_needs_an_order_by() {
    let sorted = Sort { column: "id".into(), desc: false };
    let (sql, _) =
        build_select(&t("t"), &schema(), &[], Some(&sorted), 50, 100, Dialect::Mssql).unwrap();
    assert!(sql.ends_with("OFFSET 100 ROWS FETCH NEXT 50 ROWS ONLY"), "{sql}");
    assert!(!sql.contains("SELECT NULL"), "{sql}");
    // no sort: OFFSET…FETCH is a syntax error without ORDER BY, so stub one
    let (bare, _) = build_select(&t("t"), &schema(), &[], None, 50, 0, Dialect::Mssql).unwrap();
    assert!(
        bare.contains("ORDER BY (SELECT NULL) OFFSET 0 ROWS FETCH NEXT 50 ROWS ONLY"),
        "{bare}"
    );
}

#[test]
fn quotes_per_dialect() {
    assert_eq!(Dialect::MySql.quote_ident("we`ird"), "`we``ird`");
    assert_eq!(Dialect::Mssql.quote_ident("we]ird"), "[we]]ird]");
}

#[test]
fn placeholders_per_dialect() {
    assert_eq!(Dialect::Pg.placeholder(2), "$2");
    assert_eq!(Dialect::Sqlite.placeholder(2), "?");
    assert_eq!(Dialect::MySql.placeholder(2), "?");
    assert_eq!(Dialect::Mssql.placeholder(2), "@P2");
}
