use backend::admin::{
    backup_collections, backup_file_name, backup_stats, index_confirmation, index_keys,
    index_results, is_skippable, strip_identifiers, Backup, CollectionStats, Timestamp,
    DISPLAY_FORMAT,
};
use backend::connection::{parse_action, route, Action, Connection, Engine, Route};
use backend::document::Native;
use backend::error::Error;
use backend::fs::{check_container, stats};
use backend::json::{Json, JsonNumber};
use backend::proxy::{is_dropped_header, proxy_url};
use backend::relational::CreateUniqueIndexParams;

fn s(v: &str) -> String {
    v.to_string()
}

fn obj(entries: Vec<(&str, Json)>) -> Json {
    Json::Object(entries.into_iter().map(|(k, v)| (s(k), v)).collect())
}

#[test]
fn rfc3339_timestamps() {
    let t = Timestamp::from_str("2024-01-02T03:04:05.5Z").unwrap();
    assert_eq!(t, Timestamp { secs: 1704164645, nanos: 500_000_000 });
    let t = Timestamp::from_str("1970-01-01T01:00:00+01:00").unwrap();
    assert_eq!(t.secs, 0);
    assert!(Timestamp::from_str("yesterday").is_err());
    assert_eq!(Timestamp::from_str("").unwrap_err().message, "invalid timestamp");
}

#[test]
fn stats_read_latest_modification() {
    let latest = obj(vec![("mt", Json::Str(s("2024-01-02T03:04:05Z")))]);
    let st = CollectionStats::from_latest(s("notes"), 3, Some(latest));
    assert_eq!(st.count, 3);
    assert_eq!(st.latest_mt, Some(Timestamp { secs: 1704164645, nanos: 0 }));
    let shown = st.latest_mt_formatted.unwrap();
    assert_eq!(shown.len(), 19);
    assert_eq!(&shown[2..3], "/");
    let st = CollectionStats::from_latest(s("notes"), 3, Some(obj(vec![("mt", Json::Null)])));
    assert!(st.latest_mt.is_none() && st.latest_mt_formatted.is_none());
    let st = CollectionStats::from_latest(s("notes"), 0, Some(obj(vec![("mt", Json::Str(s("later")))])));
    assert!(st.latest_mt.is_none());
}

#[test]
fn timestamp_formats() {
    let t = Timestamp { secs: 1704164645, nanos: 0 };
    assert_eq!(t.format("%d/%m/%Y").unwrap().len(), 10);
    assert!(Timestamp { secs: i64::MAX, nanos: 0 }.format(DISPLAY_FORMAT).is_none());
    let b = Backup::new(vec![]);
    assert!(b.stats.is_empty());
    assert_eq!(b.timestamp_formatted.len(), 19);
}

#[test]
fn skippable_collections() {
    assert!(is_skippable("cached"));
    assert!(is_skippable("cached_pages"));
    assert!(!is_skippable("cache"));
    assert!(!is_skippable("users_cached"));
}

#[test]
fn backup_scenario() {
    let names = vec![s("users"), s("cached_thumbs"), s("posts")];
    let kept = backup_collections(names);
    assert_eq!(kept, vec![s("users"), s("posts")]);
    assert_eq!(backup_file_name("users"), "users.json");
    let users = strip_identifiers(vec![
        obj(vec![("_id", Json::Str(s("651a00000000000000000001"))), ("name", Json::Str(s("a")))]),
        obj(vec![("_id", Json::Str(s("651a00000000000000000002"))), ("name", Json::Str(s("b")))]),
    ]);
    let posts = strip_identifiers(vec![
        obj(vec![("_id", Json::Str(s("651a00000000000000000003"))), ("t", Json::Null)]),
        obj(vec![("t", Json::Null)]),
        Json::Number(JsonNumber::PosInt(9)),
    ]);
    for r in users.iter().chain(posts.iter()) {
        if let Json::Object(e) = r {
            assert!(e.iter().all(|(k, _)| k != "_id"));
        }
    }
    assert!(matches!(posts[2], Json::Number(JsonNumber::PosInt(9))));
    let stats = vec![
        CollectionStats::from_latest(s("users"), users.len() as u64, None),
        CollectionStats::from_latest(s("cached_thumbs"), 40, None),
        CollectionStats::from_latest(s("posts"), posts.len() as u64, None),
    ];
    let meta = Backup::new(backup_stats(stats));
    assert_eq!(meta.stats.iter().map(|c| c.name.as_str()).collect::<Vec<_>>(), vec!["users", "posts"]);
    assert_eq!(meta.stats.iter().map(|c| c.count).sum::<u64>(), 5);
}

#[test]
fn index_confirmations() {
    assert_eq!(index_confirmation("users", "email_1"), "users: email_1");
    let params = vec![
        CreateUniqueIndexParams { collection: s("users"), fields: vec![s("email")] },
        CreateUniqueIndexParams { collection: s("posts"), fields: vec![s("slug")] },
    ];
    let out = index_results(&params, &vec![None, Some(s("slug_1"))]);
    assert_eq!(out, vec![s("posts: slug_1")]);
    let keys = index_keys(vec![s("a"), s("b")]);
    assert_eq!(keys.entries.len(), 2);
    assert_eq!(keys.entries[1].0, "b");
    assert!(matches!(keys.entries[0].1, Native::Value(Json::Number(JsonNumber::PosInt(1)))));
}

#[test]
fn actions_by_name() {
    assert_eq!(parse_action("create-unique-indexes"), Some(Action::CreateUniqueIndexes));
    assert_eq!(parse_action("backup-meta"), Some(Action::BackupMeta));
    assert_eq!(parse_action("Find"), None);
}

#[test]
fn routing_follows_connection_state() {
    assert!(matches!(route(Engine::Document, false, "connect"), Route::Connect));
    match route(Engine::Document, false, "find") {
        Route::Fail(e) => assert_eq!(e.message, "not connected"),
        _ => panic!("expected a failure"),
    }
    match route(Engine::Relational, true, "connect") {
        Route::Fail(e) => assert_eq!(e.message, "already connected"),
        _ => panic!("expected a failure"),
    }
    assert!(matches!(route(Engine::Relational, true, "fetch"), Route::Run(Action::Fetch)));
    assert!(matches!(route(Engine::Document, true, "add"), Route::Run(Action::Add)));
    match route(Engine::Relational, true, "add") {
        Route::Fail(e) => assert_eq!(e.message, "invalid action: add"),
        _ => panic!("expected a failure"),
    }
    match route(Engine::Document, true, "explode") {
        Route::Fail(e) => assert_eq!(e.message, "invalid action: explode"),
        _ => panic!("expected a failure"),
    }
}

#[test]
fn connect_only_once() {
    let mut c: Connection<u32> = Connection::Disconnected;
    assert_eq!(c.client().unwrap_err().message, "not connected");
    assert!(c.connect(1).is_ok());
    assert!(c.is_connected());
    assert_eq!(c.connect(2).unwrap_err().message, "already connected");
    assert_eq!(*c.client().unwrap(), 1);
}

#[test]
fn file_stats_and_containers() {
    let st = stats(10, true, false, 1_700_000_000_000);
    assert_eq!(st.size, 10);
    assert!(st.is_file && !st.is_dir);
    assert_eq!(st.modified_time, 1_700_000_000_000);
    assert_eq!(stats(0, false, true, u128::MAX).modified_time, 0);
    assert!(check_container("zip").is_ok());
    assert!(check_container("cbz").is_ok());
    assert_eq!(check_container("rar").unwrap_err().message, "unsupported container");
}

#[test]
fn errors_carry_messages() {
    let e = Error::new("boom").concat_message("!");
    assert_eq!(e.message, "boom!");
}

#[test]
fn container_paths_split_at_first_separator() {
    let (archive, entry) = backend::fs::split_container_path("/books/a.cbz>pages/1>2.png").unwrap();
    assert_eq!(archive, "/books/a.cbz");
    assert_eq!(entry, "pages/1>2.png");
    let e = backend::fs::split_container_path("/books/a.cbz").unwrap_err();
    assert_eq!(e.message, "invalid path: /books/a.cbz");
    let (archive, entry) = backend::fs::split_container_path(">x").unwrap();
    assert_eq!((archive.as_str(), entry.as_str()), ("", "x"));
}

#[test]
fn proxy_addresses_and_headers() {
    assert_eq!(proxy_url(s("https://example.org/a"), Some("q=1&r=2")), "https://example.org/a?q=1&r=2");
    assert_eq!(proxy_url(s("https://example.org/a"), None), "https://example.org/a");
    assert!(is_dropped_header("host"));
    assert!(is_dropped_header("transfer-encoding"));
    assert!(!is_dropped_header("accept"));
    assert!(!is_dropped_header("Host"));
}

#[test]
fn backup_at_a_given_instant() {
    let t = Timestamp { secs: 1704164645, nanos: 0 };
    let b = Backup::at(t, vec![CollectionStats::from_latest(s("users"), 2, None)]);
    assert_eq!(b.timestamp, t);
    assert_eq!(b.stats.len(), 1);
    assert_eq!(b.timestamp_formatted.len(), 19);
    assert!(b.timestamp_formatted.ends_with(":05"));
    let far = Backup::at(Timestamp { secs: i64::MAX, nanos: 0 }, vec![]);
    assert!(far.timestamp_formatted.is_empty());
}

#[test]
fn leap_second_is_read() {
    let t = Timestamp::from_str("2016-12-31T23:59:60Z").unwrap();
    assert_eq!(t.secs % 60, 59);
    assert!(t.nanos >= 1_000_000_000);
    assert!(t.format(DISPLAY_FORMAT).is_some());
}
