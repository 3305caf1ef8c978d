use backend::admin::CollectionStats;
use backend::bulk::{finish_add, finish_remove, finish_update, plan_add, plan_remove, plan_update};
use backend::json::{Json, JsonNumber};

fn s(v: &str) -> String {
    v.to_string()
}

fn obj(entries: Vec<(&str, Json)>) -> Json {
    Json::Object(entries.into_iter().map(|(k, v)| (s(k), v)).collect())
}

fn text(v: &str) -> Json {
    Json::Str(s(v))
}

fn entries(j: &Json) -> &Vec<(String, Json)> {
    match j {
        Json::Object(e) => e,
        _ => panic!("not an object"),
    }
}

fn field<'a>(j: &'a Json, key: &str) -> Option<&'a Json> {
    entries(j).iter().find(|(k, _)| k == key).map(|(_, v)| v)
}

fn str_of(j: &Json) -> &str {
    match j {
        Json::Str(v) => v.as_str(),
        _ => panic!("not a string"),
    }
}

fn id(n: u8) -> [u8; 12] {
    [0x65, 0x1a, 0, 0, 0, 0, 0, 0, 0, 0, 0, n]
}

#[test]
fn add_strips_supplied_identifier() {
    let planned = plan_add(vec![obj(vec![("_id", text("aaaaaaaaaaaaaaaaaaaaaaaa")), ("name", text("a"))])]);
    let fields = planned[0].as_ref().unwrap();
    assert!(fields.iter().all(|(k, _)| k != "_id"));
    let out = finish_add(planned, vec![Some(id(7))]);
    assert_eq!(out.len(), 1);
    let assigned = str_of(field(&out[0], "_id").unwrap());
    assert_eq!(assigned, "651a00000000000000000007");
    assert_ne!(assigned, "aaaaaaaaaaaaaaaaaaaaaaaa");
    assert_eq!(entries(&out[0]).iter().filter(|(k, _)| k == "_id").count(), 1);
    assert_eq!(str_of(field(&out[0], "name").unwrap()), "a");
}

#[test]
fn add_identifier_is_well_formed_token() {
    let out = finish_add(plan_add(vec![obj(vec![("x", Json::Null)])]), vec![Some([0xff; 12])]);
    let t = str_of(field(&out[0], "_id").unwrap());
    assert_eq!(t.len(), 24);
    assert!(t.chars().all(|c| c.is_ascii_hexdigit() && !c.is_ascii_uppercase()));
    assert_eq!(t, "ffffffffffffffffffffffff");
}

#[test]
fn add_omits_non_objects_and_failed_inserts() {
    let planned = plan_add(vec![
        obj(vec![("name", text("a"))]),
        Json::Number(JsonNumber::PosInt(3)),
        obj(vec![("name", text("b"))]),
        obj(vec![("name", text("c"))]),
    ]);
    assert!(planned[1].is_none());
    let out = finish_add(planned, vec![Some(id(1)), None, None, Some(id(3))]);
    assert_eq!(out.len(), 2);
    assert_eq!(str_of(field(&out[0], "name").unwrap()), "a");
    assert_eq!(str_of(field(&out[1], "name").unwrap()), "c");
}

#[test]
fn add_empty_request() {
    let planned = plan_add(vec![]);
    assert!(planned.is_empty());
    assert!(finish_add(planned, vec![]).is_empty());
}

#[test]
fn update_without_identifier_is_omitted() {
    let planned = plan_update(vec![
        obj(vec![("name", text("no id"))]),
        obj(vec![("_id", text("bad")), ("name", text("bad id"))]),
        obj(vec![("_id", Json::Number(JsonNumber::PosInt(5)))]),
        text("not an object"),
        obj(vec![("_id", text("651a0000000000000000000a")), ("name", text("z"))]),
    ]);
    assert!(planned[0].is_none() && planned[1].is_none() && planned[2].is_none() && planned[3].is_none());
    let (pid, fields) = planned[4].as_ref().unwrap();
    assert_eq!(*pid, id(10));
    assert!(fields.iter().all(|(k, _)| k != "_id"));
    let out = finish_update(planned, vec![true, true, true, true, true]);
    assert_eq!(out.len(), 1);
    let e = entries(&out[0]);
    assert_eq!(e[0].0, "name");
    assert_eq!(e[1].0, "_id");
    assert_eq!(str_of(&e[1].1), "651a0000000000000000000a");
}

#[test]
fn update_that_changes_nothing_is_omitted() {
    let planned = plan_update(vec![obj(vec![("_id", text("651a0000000000000000000a")), ("n", Json::Null)])]);
    assert!(finish_update(planned, vec![false]).is_empty());
}

#[test]
fn remove_returns_the_callers_item_unchanged() {
    let planned = plan_remove(vec![
        obj(vec![("name", text("a")), ("_id", text("651A0000000000000000000B"))]),
        obj(vec![("name", text("no id"))]),
    ]);
    assert!(planned[1].is_none());
    assert_eq!(planned[0].as_ref().unwrap().0, id(11));
    let out = finish_remove(planned, vec![true, true]);
    assert_eq!(out.len(), 1);
    let e = entries(&out[0]);
    assert_eq!(e.len(), 2);
    assert_eq!(e[0].0, "name");
    assert_eq!(str_of(&e[0].1), "a");
    assert_eq!(e[1].0, "_id");
    assert_eq!(str_of(&e[1].1), "651A0000000000000000000B");
}

#[test]
fn remove_that_deletes_nothing_is_omitted() {
    let planned = plan_remove(vec![obj(vec![("_id", text("651a0000000000000000000b"))])]);
    assert!(finish_remove(planned, vec![false]).is_empty());
}

#[test]
fn users_scenario() {
    // `users` is empty; two items are added and the engine assigns two identifiers.
    let planned = plan_add(vec![obj(vec![("name", text("a"))]), obj(vec![("name", text("b"))])]);
    let added = finish_add(planned, vec![Some(id(1)), Some(id(2))]);
    assert_eq!(added.len(), 2);
    let first = str_of(field(&added[0], "_id").unwrap()).to_string();
    let second = str_of(field(&added[1], "_id").unwrap()).to_string();
    assert!(!first.is_empty() && !second.is_empty());
    assert_ne!(first, second);
    assert_eq!(str_of(field(&added[0], "name").unwrap()), "a");
    assert_eq!(str_of(field(&added[1], "name").unwrap()), "b");
    let stats = CollectionStats::from_latest(s("users"), added.len() as u64, None);
    assert_eq!(stats.name, "users");
    assert_eq!(stats.count, 2);
    assert!(stats.latest_mt.is_none());
    let planned = plan_remove(vec![obj(vec![("_id", Json::Str(first.clone()))])]);
    let removed = finish_remove(planned, vec![true]);
    assert_eq!(removed.len(), 1);
    assert_eq!(str_of(field(&removed[0], "_id").unwrap()), first);
    let stats = CollectionStats::from_latest(s("users"), 2 - removed.len() as u64, None);
    assert_eq!(stats.count, 1);
}

#[test]
fn returned_identifier_filters_its_record() {
    let added = finish_add(plan_add(vec![obj(vec![("name", text("a"))])]), vec![Some(id(42))]);
    let token = str_of(field(&added[0], "_id").unwrap()).to_string();
    let q = backend::query::translate(Some(obj(vec![("_id", Json::Str(token))])), None, None);
    match &q.filter.entries[0].1 {
        backend::document::Native::Id(b) => assert_eq!(*b, id(42)),
        _ => panic!("identifier filter not converted"),
    }
}
