use dbelte::commands::pk_where;
use dbelte::db::{ColumnInfo, Dialect};
use dbelte::json::JsonValue;
use dbelte::valuemap::ValueMap;

fn two_pk_schema() -> Vec<ColumnInfo> {
    vec![
        ColumnInfo { name: "a".into(), data_type: "integer".into(), nullable: false, is_pk: true },
        ColumnInfo { name: "b".into(), data_type: "text".into(), nullable: false, is_pk: true },
        ColumnInfo { name: "v".into(), data_type: "text".into(), nullable: true, is_pk: false },
    ]
}

#[test]
fn composite_key_ands_every_column() {
    let mut vals = ValueMap::new();
    vals.insert("a".to_string(), JsonValue::Int(1));
    vals.insert("b".to_string(), JsonValue::Str("x".to_string()));
    let (sql, binds) = pk_where(&two_pk_schema(), &vals, Dialect::Pg, 2).unwrap();
    assert_eq!(sql, r#""a" = CAST($2 AS integer) AND "b" = CAST($3 AS text)"#);
    assert_eq!(binds.len(), 2);
}

#[test]
fn partial_key_is_refused() {
    // half a composite key would match many rows — never build that WHERE
    let mut vals = ValueMap::new();
    vals.insert("a".to_string(), JsonValue::Int(1));
    assert!(pk_where(&two_pk_schema(), &vals, Dialect::Pg, 1).is_err());
    assert!(pk_where(&[], &ValueMap::new(), Dialect::Pg, 1).is_err());
}
