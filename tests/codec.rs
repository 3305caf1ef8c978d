use backend::document::{to_native, to_wire, Native};
use backend::json::{Json, JsonNumber};
use backend::query::{translate, PaginationParams};

fn s(v: &str) -> String {
    v.to_string()
}

fn obj(entries: Vec<(&str, Json)>) -> Json {
    Json::Object(entries.into_iter().map(|(k, v)| (s(k), v)).collect())
}

fn text(v: &str) -> Json {
    Json::Str(s(v))
}

fn entries(j: &Json) -> &Vec<(String, Json)> {
    match j {
        Json::Object(e) => e,
        _ => panic!("not an object"),
    }
}

fn str_of(j: &Json) -> &str {
    match j {
        Json::Str(v) => v.as_str(),
        _ => panic!("not a string"),
    }
}

#[test]
fn identifier_token_becomes_native() {
    let item = obj(vec![("_id", text("507f1f77bcf86cd799439011")), ("name", text("a"))]);
    let doc = to_native(item).unwrap();
    match &doc.entries[0].1 {
        Native::Id(b) => assert_eq!(
            b,
            &[0x50, 0x7f, 0x1f, 0x77, 0xbc, 0xf8, 0x6c, 0xd7, 0x99, 0x43, 0x90, 0x11]
        ),
        _ => panic!("identifier not converted"),
    }
    assert!(matches!(&doc.entries[1].1, Native::Value(Json::Str(v)) if v == "a"));
}

#[test]
fn malformed_identifier_stays_text() {
    let item = obj(vec![("_id", text("not-a-token")), ("n", Json::Number(JsonNumber::PosInt(3)))]);
    let doc = to_native(item).unwrap();
    assert!(matches!(&doc.entries[0].1, Native::Value(Json::Str(v)) if v == "not-a-token"));
    let short = obj(vec![("_id", text("507f1f77bcf86cd79943901"))]);
    let doc = to_native(short).unwrap();
    assert!(matches!(&doc.entries[0].1, Native::Value(_)));
}

#[test]
fn non_object_is_no_document() {
    assert!(to_native(Json::Null).is_none());
    assert!(to_native(Json::Array(vec![])).is_none());
    assert!(to_native(text("x")).is_none());
}

#[test]
fn round_trip_document() {
    let make = || {
        obj(vec![
            ("_id", text("507f1f77bcf86cd799439011")),
            ("name", text("a")),
            ("n", Json::Number(JsonNumber::NegInt(-4))),
            ("ok", Json::Bool(true)),
            ("none", Json::Null),
            ("list", Json::Array(vec![Json::Number(JsonNumber::PosInt(1)), text("x")])),
            ("inner", obj(vec![("k", text("v"))])),
        ])
    };
    let back = to_wire(to_native(make()).unwrap());
    let expected = make();
    let (a, b) = (entries(&back), entries(&expected));
    assert_eq!(a.len(), b.len());
    for (x, y) in a.iter().zip(b.iter()) {
        assert_eq!(x.0, y.0);
        assert_eq!(format!("{:?}", x.1), format!("{:?}", y.1));
    }
}

#[test]
fn upper_case_token_comes_back_lower_case() {
    let item = obj(vec![("_id", text("507F1F77BCF86CD799439011"))]);
    let back = to_wire(to_native(item).unwrap());
    assert_eq!(str_of(&entries(&back)[0].1), "507f1f77bcf86cd799439011");
}

#[test]
fn second_page_skips_one_page() {
    let q = translate(None, None, Some(PaginationParams { page: Some(2), limit: Some(10) }));
    let o = q.options.unwrap();
    assert_eq!(o.skip, Some(10));
    assert_eq!(o.limit, Some(10));
    assert!(o.sort.is_none());
    assert!(q.filter.entries.is_empty());
}

#[test]
fn page_defaults_to_first() {
    let q = translate(None, None, Some(PaginationParams { page: None, limit: Some(25) }));
    let o = q.options.unwrap();
    assert_eq!(o.skip, Some(0));
    assert_eq!(o.limit, Some(25));
}

#[test]
fn zero_limit_is_unbounded() {
    let q = translate(None, None, Some(PaginationParams { page: Some(3), limit: Some(0) }));
    let o = q.options.unwrap();
    assert_eq!(o.skip, Some(0));
    assert_eq!(o.limit, Some(0));
}

#[test]
fn no_pagination_no_options() {
    let q = translate(None, None, None);
    assert!(q.options.is_none());
    let q = translate(None, None, Some(PaginationParams { page: Some(2), limit: None }));
    assert!(q.options.is_none());
}

#[test]
fn largest_page_and_limit_fit() {
    let q = translate(None, None, Some(PaginationParams { page: Some(u32::MAX), limit: Some(u32::MAX) }));
    let o = q.options.unwrap();
    assert_eq!(o.skip, Some((u32::MAX as u64 - 1) * u32::MAX as u64));
    assert_eq!(o.limit, Some(u32::MAX as i64));
}

#[test]
fn sort_only_and_malformed_filter() {
    let q = translate(
        Some(text("not a document")),
        Some(obj(vec![("mt", Json::Number(JsonNumber::NegInt(-1)))])),
        None,
    );
    assert!(q.filter.entries.is_empty());
    let o = q.options.unwrap();
    assert!(o.skip.is_none() && o.limit.is_none());
    assert_eq!(o.sort.unwrap().entries[0].0, "mt");
    let q = translate(None, Some(Json::Bool(true)), None);
    assert!(q.options.is_none());
}

#[test]
fn filter_on_identifier_uses_native_id() {
    let q = translate(Some(obj(vec![("_id", text("000000000000000000000001"))])), None, None);
    match &q.filter.entries[0].1 {
        Native::Id(b) => assert_eq!(b[11], 1),
        _ => panic!("identifier filter not converted"),
    }
}
