use snb::sql::{
    ColumnType, Condition, DeleteQuery, InsertQuery, Order, Row, SelectQuery, TableDef, TypeNames, UpdateQuery,
};

#[derive(Debug, Clone, PartialEq)]
enum Value {
    Null,
    Integer(i64),
    Real(f64),
    Text(String),
    Blob(Vec<u8>),
}

impl Value {
    fn to_text(&self) -> String {
        match self {
            Value::Null => "NULL".to_string(),
            Value::Integer(v) => format!("{v}"),
            Value::Real(v) => format!("{v}"),
            Value::Text(v) => v.clone(),
            Value::Blob(v) => format!("<blob {} bytes>", v.len()),
        }
    }
}

fn mock_types() -> TypeNames {
    TypeNames {
        integer: "INTEGER".to_string(),
        real: "REAL".to_string(),
        text: "TEXT".to_string(),
        blob: "BLOB".to_string(),
        boolean: "BOOLEAN".to_string(),
    }
}

fn placeholders(n: usize) -> Vec<String> {
    (1..=n).map(|i| format!("${i}")).collect()
}

fn owned(params: Vec<&Value>) -> Vec<Value> {
    params.into_iter().cloned().collect()
}

fn default_text(v: Option<Value>) -> Option<String> {
    v.map(|v| v.to_text())
}

#[test]
fn database_table_builder_generates_create_table_sql() {
    let t = TableDef::new("users")
        .column("id", ColumnType::Integer, true, true, true, default_text(None))
        .column("name", ColumnType::Text, false, true, false, default_text(None))
        .column(
            "score",
            ColumnType::Real,
            false,
            false,
            false,
            default_text(Some(Value::Real(0.0))),
        );
    let sql = t.to_sql(&mock_types());

    assert!(sql.contains("CREATE TABLE \"users\""));
    assert!(sql.contains("\"id\" INTEGER PRIMARY KEY AUTOINCREMENT"));
    assert!(sql.contains("\"name\" TEXT NOT NULL"));
    assert!(sql.contains("\"score\" REAL DEFAULT 0"));
}

#[test]
fn database_table_builder_if_not_exists() {
    let t = TableDef::new("t")
        .column("id", ColumnType::Integer, true, true, true, default_text(None))
        .if_not_exists();
    let sql = t.to_sql(&mock_types());
    assert!(sql.contains("CREATE TABLE IF NOT EXISTS"));
}

#[test]
fn database_insert_builder_generates_correct_sql() {
    let q = InsertQuery::new("users")
        .set("name", Value::Text("Bob".into()))
        .set("age", Value::Integer(25));
    let (sql, params) = q.to_sql(&placeholders(2));
    let params = owned(params);
    assert!(sql.contains("INSERT INTO \"users\""));
    assert!(sql.contains("\"name\""));
    assert!(sql.contains("\"age\""));
    assert_eq!(params.len(), 2);
    assert_eq!(params[0], Value::Text("Bob".into()));
    assert_eq!(params[1], Value::Integer(25));
}

#[test]
fn database_select_builder_star() {
    let q: SelectQuery<Value> = SelectQuery::new("items");
    let (sql, _) = q.to_sql(&placeholders(0));
    assert_eq!(sql, "SELECT * FROM \"items\"");
}

#[test]
fn database_select_builder_with_columns_where_order_limit() {
    let q = SelectQuery::new("items")
        .column("name")
        .column("price")
        .where_(Condition::Gt("price".into(), Value::Real(10.0)))
        .order_by(Order::Desc("price".into()))
        .limit(5)
        .offset(2);
    let (sql, params) = q.to_sql(&placeholders(1));
    assert!(sql.contains("SELECT \"name\", \"price\" FROM \"items\""));
    assert!(sql.contains("WHERE price > $1"));
    assert!(sql.contains("ORDER BY \"price\" DESC"));
    assert!(sql.contains("LIMIT 5"));
    assert!(sql.contains("OFFSET 2"));
    assert_eq!(owned(params), vec![Value::Real(10.0)]);
}

#[test]
fn database_update_builder_generates_correct_sql() {
    let q = UpdateQuery::new("users")
        .set("name", Value::Text("Carol".into()))
        .where_(Condition::Eq("id".into(), Value::Integer(3)));
    let (sql, params) = q.to_sql(&placeholders(2));
    assert!(sql.contains("UPDATE \"users\" SET"));
    assert!(sql.contains("\"name\" = $1"));
    assert!(sql.contains("WHERE id = $2"));
    assert_eq!(owned(params), vec![Value::Text("Carol".into()), Value::Integer(3)]);
}

#[test]
fn database_delete_builder_generates_correct_sql() {
    let q = DeleteQuery::new("users").where_(Condition::Eq("id".into(), Value::Integer(7)));
    let (sql, params) = q.to_sql(&placeholders(1));
    assert!(sql.contains("DELETE FROM \"users\""));
    assert!(sql.contains("WHERE id = $1"));
    assert_eq!(owned(params), vec![Value::Integer(7)]);
}

#[test]
fn database_condition_and_or_nested() {
    let q = SelectQuery::new("t").where_(Condition::And(vec![
        Condition::Eq("a".into(), Value::Integer(1)),
        Condition::Or(vec![
            Condition::Gt("b".into(), Value::Integer(10)),
            Condition::IsNull("c".into()),
        ]),
    ]));
    let (sql, params) = q.to_sql(&placeholders(2));
    assert!(sql.contains("WHERE (a = $1 AND (b > $2 OR c IS NULL))"));
    assert_eq!(owned(params), vec![Value::Integer(1), Value::Integer(10)]);
}

#[test]
fn database_condition_in() {
    let q = SelectQuery::new("t").where_(Condition::In(
        "x".into(),
        vec![Value::Integer(1), Value::Integer(2), Value::Integer(3)],
    ));
    let (sql, params) = q.to_sql(&placeholders(3));
    assert!(sql.contains("x IN ($1, $2, $3)"));
    assert_eq!(
        owned(params),
        vec![Value::Integer(1), Value::Integer(2), Value::Integer(3)]
    );
}

#[test]
fn database_condition_like_not_eq() {
    let q = SelectQuery::new("t").where_(Condition::And(vec![
        Condition::Like("name".into(), Value::Text("%foo%".into())),
        Condition::NotEq("status".into(), Value::Text("deleted".into())),
    ]));
    let (sql, params) = q.to_sql(&placeholders(2));
    assert!(sql.contains("name LIKE $1"));
    assert!(sql.contains("status != $2"));
    assert_eq!(
        owned(params),
        vec![Value::Text("%foo%".into()), Value::Text("deleted".into())]
    );
}

#[test]
fn database_tests_table_builder_generates_create_table_sql() {
    let t = TableDef::new("users")
        .column("id", ColumnType::Integer, true, true, true, default_text(None))
        .column("name", ColumnType::Text, false, true, false, default_text(None))
        .column(
            "score",
            ColumnType::Real,
            false,
            false,
            false,
            default_text(Some(Value::Real(0.0))),
        );
    let sql = t.to_sql(&mock_types());

    assert!(sql.contains("CREATE TABLE \"users\""));
    assert!(sql.contains("\"id\" INTEGER PRIMARY KEY AUTOINCREMENT"));
    assert!(sql.contains("\"name\" TEXT NOT NULL"));
    assert!(sql.contains("\"score\" REAL DEFAULT 0"));
}

#[test]
fn database_tests_table_builder_if_not_exists() {
    let t = TableDef::new("t")
        .column("id", ColumnType::Integer, true, true, true, default_text(None))
        .if_not_exists();
    let sql = t.to_sql(&mock_types());
    assert!(sql.contains("CREATE TABLE IF NOT EXISTS"));
}

#[test]
fn database_tests_insert_builder_generates_correct_sql() {
    let q = InsertQuery::new("users")
        .set("name", Value::Text("Bob".into()))
        .set("age", Value::Integer(25));
    let (sql, params) = q.to_sql(&placeholders(2));
    let params = owned(params);
    assert!(sql.contains("INSERT INTO \"users\""));
    assert!(sql.contains("\"name\""));
    assert!(sql.contains("\"age\""));
    assert_eq!(params.len(), 2);
    assert_eq!(params[0], Value::Text("Bob".into()));
    assert_eq!(params[1], Value::Integer(25));
}

#[test]
fn database_tests_select_builder_star() {
    let q: SelectQuery<Value> = SelectQuery::new("items");
    let (sql, _) = q.to_sql(&placeholders(0));
    assert_eq!(sql, "SELECT * FROM \"items\"");
}

#[test]
fn database_tests_select_builder_with_columns_where_order_limit() {
    let q = SelectQuery::new("items")
        .column("name")
        .column("price")
        .where_(Condition::Gt("price".into(), Value::Real(10.0)))
        .order_by(Order::Desc("price".into()))
        .limit(5)
        .offset(2);
    let (sql, params) = q.to_sql(&placeholders(1));
    assert!(sql.contains("SELECT \"name\", \"price\" FROM \"items\""));
    assert!(sql.contains("WHERE price > $1"));
    assert!(sql.contains("ORDER BY \"price\" DESC"));
    assert!(sql.contains("LIMIT 5"));
    assert!(sql.contains("OFFSET 2"));
    assert_eq!(owned(params), vec![Value::Real(10.0)]);
}

#[test]
fn database_tests_update_builder_generates_correct_sql() {
    let q = UpdateQuery::new("users")
        .set("name", Value::Text("Carol".into()))
        .where_(Condition::Eq("id".into(), Value::Integer(3)));
    let (sql, params) = q.to_sql(&placeholders(2));
    assert!(sql.contains("UPDATE \"users\" SET"));
    assert!(sql.contains("\"name\" = $1"));
    assert!(sql.contains("WHERE id = $2"));
    assert_eq!(owned(params), vec![Value::Text("Carol".into()), Value::Integer(3)]);
}

#[test]
fn database_tests_delete_builder_generates_correct_sql() {
    let q = DeleteQuery::new("users").where_(Condition::Eq("id".into(), Value::Integer(7)));
    let (sql, params) = q.to_sql(&placeholders(1));
    assert!(sql.contains("DELETE FROM \"users\""));
    assert!(sql.contains("WHERE id = $1"));
    assert_eq!(owned(params), vec![Value::Integer(7)]);
}

#[test]
fn database_tests_condition_and_or_nested() {
    let q = SelectQuery::new("t").where_(Condition::And(vec![
        Condition::Eq("a".into(), Value::Integer(1)),
        Condition::Or(vec![
            Condition::Gt("b".into(), Value::Integer(10)),
            Condition::IsNull("c".into()),
        ]),
    ]));
    let (sql, params) = q.to_sql(&placeholders(2));
    assert!(sql.contains("WHERE (a = $1 AND (b > $2 OR c IS NULL))"));
    assert_eq!(owned(params), vec![Value::Integer(1), Value::Integer(10)]);
}

#[test]
fn database_tests_condition_in() {
    let q = SelectQuery::new("t").where_(Condition::In(
        "x".into(),
        vec![Value::Integer(1), Value::Integer(2), Value::Integer(3)],
    ));
    let (sql, params) = q.to_sql(&placeholders(3));
    assert!(sql.contains("x IN ($1, $2, $3)"));
    assert_eq!(
        owned(params),
        vec![Value::Integer(1), Value::Integer(2), Value::Integer(3)]
    );
}

#[test]
fn database_tests_condition_like_not_eq() {
    let q = SelectQuery::new("t").where_(Condition::And(vec![
        Condition::Like("name".into(), Value::Text("%foo%".into())),
        Condition::NotEq("status".into(), Value::Text("deleted".into())),
    ]));
    let (sql, params) = q.to_sql(&placeholders(2));
    assert!(sql.contains("name LIKE $1"));
    assert!(sql.contains("status != $2"));
    assert_eq!(
        owned(params),
        vec![Value::Text("%foo%".into()), Value::Text("deleted".into())]
    );
}

#[test]
fn value_display_matches_default_text() {
    assert_eq!(Value::Null.to_text(), "NULL");
    assert_eq!(Value::Blob(vec![1, 2, 3]).to_text(), "<blob 3 bytes>");
}

#[test]
fn create_table_text_is_exact() {
    let t = TableDef::new("u")
        .column("id", ColumnType::Integer, true, true, false, None)
        .column("flag", ColumnType::Boolean, false, false, false, Some("1".to_string()))
        .column("b", ColumnType::Blob, false, true, false, None);
    assert_eq!(
        t.to_sql(&mock_types()),
        "CREATE TABLE \"u\" (\"id\" INTEGER PRIMARY KEY, \"flag\" BOOLEAN DEFAULT 1, \"b\" BLOB NOT NULL)"
    );
}

#[test]
fn full_select_text_is_exact() {
    let q = SelectQuery::new("t")
        .where_(Condition::Or(vec![
            Condition::Lte("a".into(), Value::Integer(1)),
            Condition::Gte("b".into(), Value::Integer(2)),
            Condition::IsNotNull("c".into()),
            Condition::Lt("d".into(), Value::Integer(3)),
        ]))
        .order_by(Order::Asc("a".into()))
        .order_by(Order::Desc("b".into()))
        .limit(0);
    let (sql, params) = q.to_sql(&placeholders(3));
    assert_eq!(
        sql,
        "SELECT * FROM \"t\" WHERE (a <= $1 OR b >= $2 OR c IS NOT NULL OR d < $3) ORDER BY \"a\" ASC, \"b\" DESC LIMIT 0"
    );
    assert_eq!(owned(params), vec![Value::Integer(1), Value::Integer(2), Value::Integer(3)]);
}

#[test]
fn update_numbers_condition_after_values_exactly() {
    let q = UpdateQuery::new("t")
        .set("a", Value::Integer(1))
        .set("b", Value::Null)
        .where_(Condition::In("c".into(), vec![Value::Integer(5), Value::Integer(6)]));
    let (sql, params) = q.to_sql(&placeholders(4));
    assert_eq!(sql, "UPDATE \"t\" SET \"a\" = $1, \"b\" = $2 WHERE c IN ($3, $4)");
    assert_eq!(params.len(), 4);
}

#[test]
fn insert_and_delete_text_is_exact() {
    let q = InsertQuery::new("t").set("a", Value::Integer(1));
    let (sql, _) = q.to_sql(&placeholders(1));
    assert_eq!(sql, "INSERT INTO \"t\" (\"a\") VALUES ($1)");
    let d: DeleteQuery<Value> = DeleteQuery::new("t");
    let (sql, params) = d.to_sql(&placeholders(0));
    assert_eq!(sql, "DELETE FROM \"t\"");
    assert!(params.is_empty());
}

#[test]
fn empty_in_list_binds_nothing() {
    let q = SelectQuery::new("t").where_(Condition::In("x".into(), Vec::<Value>::new()));
    let (sql, params) = q.to_sql(&placeholders(0));
    assert_eq!(sql, "SELECT * FROM \"t\" WHERE x IN ()");
    assert!(params.is_empty());
}

#[test]
fn database_row_get_existing_column() {
    let row = Row {
        columns: vec!["id".into(), "name".into()],
        values: vec![Value::Integer(1), Value::Text("Alice".into())],
    };
    assert_eq!(row.get("id"), Some(&Value::Integer(1)));
    assert_eq!(row.get("name"), Some(&Value::Text("Alice".into())));
}

#[test]
fn database_row_get_missing_column() {
    let row = Row {
        columns: vec!["id".into()],
        values: vec![Value::Integer(1)],
    };
    assert_eq!(row.get("missing"), None);
}

#[test]
fn database_tests_row_get_existing_column() {
    let row = Row {
        columns: vec!["id".into(), "name".into()],
        values: vec![Value::Integer(1), Value::Text("Alice".into())],
    };
    assert_eq!(row.get("id"), Some(&Value::Integer(1)));
    assert_eq!(row.get("name"), Some(&Value::Text("Alice".into())));
}

#[test]
fn database_tests_row_get_missing_column() {
    let row = Row {
        columns: vec!["id".into()],
        values: vec![Value::Integer(1)],
    };
    assert_eq!(row.get("missing"), None);
}
