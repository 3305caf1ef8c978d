use backend::json::{Json, JsonNumber};
use backend::relational::{
    column_kind, count_from_rows, count_sql, decode_cell, decode_row, decode_rows, decode_text,
    drop_table_sql, table_names, unique_index_name, unique_index_sql, Cell, ColumnKind,
};

fn s(v: &str) -> String {
    v.to_string()
}

fn obj(entries: Vec<(&str, Json)>) -> Json {
    Json::Object(entries.into_iter().map(|(k, v)| (s(k), v)).collect())
}

#[test]
fn column_kinds_by_name() {
    assert_eq!(column_kind("NULL"), ColumnKind::Null);
    assert_eq!(column_kind("TEXT"), ColumnKind::Text);
    assert_eq!(column_kind("INTEGER"), ColumnKind::Integer);
    assert_eq!(column_kind("REAL"), ColumnKind::Real);
    assert_eq!(column_kind("BOOLEAN"), ColumnKind::Boolean);
    assert_eq!(column_kind("BLOB"), ColumnKind::Unsupported);
    assert_eq!(column_kind("text"), ColumnKind::Unsupported);
}

#[test]
fn fenced_json_is_parsed() {
    let v = decode_text(s("```json{\"a\":[1,-2,true,null,\"x\"]}```"));
    let e = match &v {
        Json::Object(e) => e,
        _ => panic!("embedded JSON not parsed: {:?}", v),
    };
    assert_eq!(e.len(), 1);
    assert_eq!(e[0].0, "a");
    match &e[0].1 {
        Json::Array(items) => {
            assert!(matches!(items[0], Json::Number(JsonNumber::PosInt(1))));
            assert!(matches!(items[1], Json::Number(JsonNumber::NegInt(-2))));
            assert!(matches!(items[2], Json::Bool(true)));
            assert!(matches!(items[3], Json::Null));
            assert!(matches!(&items[4], Json::Str(t) if t == "x"));
        }
        _ => panic!("array expected"),
    }
}

#[test]
fn fenced_fraction_keeps_its_bits() {
    let v = decode_text(s("```json2.5```"));
    assert!(matches!(v, Json::Number(JsonNumber::Real(b)) if b == 2.5f64.to_bits()));
}

#[test]
fn fenced_invalid_json_stays_text() {
    let raw = "```json{not json```";
    assert!(matches!(decode_text(s(raw)), Json::Str(t) if t == raw));
}

#[test]
fn unfenced_text_stays_text() {
    assert!(matches!(decode_text(s("{\"a\":1}")), Json::Str(t) if t == "{\"a\":1}"));
    assert!(matches!(decode_text(s("```json")), Json::Str(t) if t == "```json"));
    assert!(matches!(decode_text(s("")), Json::Str(t) if t.is_empty()));
}

#[test]
fn cells_decode() {
    assert!(matches!(decode_cell(Cell::Null), Ok(Json::Null)));
    assert!(matches!(decode_cell(Cell::Integer(-7)), Ok(Json::Number(JsonNumber::NegInt(-7)))));
    assert!(matches!(decode_cell(Cell::Integer(7)), Ok(Json::Number(JsonNumber::PosInt(7)))));
    assert!(matches!(decode_cell(Cell::Boolean(false)), Ok(Json::Bool(false))));
    let b = 0.25f64.to_bits();
    assert!(matches!(decode_cell(Cell::Real(b)), Ok(Json::Number(JsonNumber::Real(x))) if x == b));
}

#[test]
fn non_finite_real_fails() {
    let e = decode_cell(Cell::Real(f64::INFINITY.to_bits())).unwrap_err();
    assert_eq!(e.message, "invalid number");
    assert!(decode_cell(Cell::Real(f64::NAN.to_bits())).is_err());
}

#[test]
fn unsupported_type_fails() {
    let e = decode_cell(Cell::Unsupported).unwrap_err();
    assert_eq!(e.message, "invalid type");
}

#[test]
fn row_decodes_in_column_order() {
    let row = decode_row(vec![
        (s("id"), Cell::Integer(1)),
        (s("name"), Cell::Text(s("a"))),
        (s("meta"), Cell::Text(s("```json{\"k\":\"v\"}```"))),
    ])
    .unwrap();
    let e = match &row {
        Json::Object(e) => e,
        _ => panic!("object expected"),
    };
    assert_eq!(e.iter().map(|(k, _)| k.as_str()).collect::<Vec<_>>(), vec!["id", "name", "meta"]);
    assert!(matches!(&e[2].1, Json::Object(inner) if inner[0].0 == "k"));
}

#[test]
fn one_bad_column_fails_the_fetch() {
    let rows = vec![
        vec![(s("a"), Cell::Integer(1))],
        vec![(s("a"), Cell::Unsupported)],
    ];
    assert_eq!(decode_rows(rows).unwrap_err().message, "invalid type");
    let ok = decode_rows(vec![vec![(s("a"), Cell::Integer(1))], vec![]]).unwrap();
    assert_eq!(ok.len(), 2);
}

#[test]
fn index_statements() {
    let fields = vec![s("email"), s("org")];
    assert_eq!(unique_index_name(&fields), "email_org_unique_index");
    assert_eq!(
        unique_index_sql("users", &fields),
        "CREATE UNIQUE INDEX IF NOT EXISTS email_org_unique_index ON users (email, org)"
    );
    assert_eq!(unique_index_name(&vec![s("a")]), "a_unique_index");
    assert_eq!(drop_table_sql("users"), "DROP TABLE IF EXISTS users");
    assert_eq!(count_sql("users"), "SELECT COUNT(*) FROM users");
}

#[test]
fn table_listing_and_count() {
    let rows = vec![
        obj(vec![("name", Json::Str(s("users")))]),
        obj(vec![("name", Json::Null)]),
        obj(vec![("name", Json::Str(s("posts")))]),
    ];
    assert_eq!(table_names(&rows), vec![s("users"), s("posts")]);
    let count = vec![obj(vec![("COUNT(*)", Json::Number(JsonNumber::PosInt(5)))])];
    assert_eq!(count_from_rows(&count), 5);
    assert_eq!(count_from_rows(&vec![]), 0);
}

#[test]
fn first_failing_column_gives_the_message() {
    let row = vec![
        (s("a"), Cell::Integer(1)),
        (s("b"), Cell::Real(f64::NEG_INFINITY.to_bits())),
        (s("c"), Cell::Unsupported),
    ];
    assert_eq!(decode_row(row).unwrap_err().message, "invalid number");
    let rows = vec![
        vec![(s("a"), Cell::Null)],
        vec![(s("a"), Cell::Unsupported), (s("b"), Cell::Real(f64::NAN.to_bits()))],
        vec![(s("a"), Cell::Real(f64::NAN.to_bits()))],
    ];
    assert_eq!(decode_rows(rows).unwrap_err().message, "invalid type");
}
