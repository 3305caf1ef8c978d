use vstd::prelude::*;
use crate::bulk::positions;
use crate::document::{Document, Native, PRIMARY_KEY};
use crate::error::Error;
use crate::json::{Json, JsonNumber, lookup, get, without_key, remove_key, reversed};
use crate::relational::CreateUniqueIndexParams;
use crate::text::has_prefix;

verus! {

/// The field under which a record keeps its last modification time.
pub const MODIFIED_TIME_KEY: &'static str = "mt";

/// The prefix of the collections that a backup leaves out.
pub const SKIPPABLE_PREFIX: &'static str = "cached";

/// The pattern of timestamps in file names.
pub const FILE_FORMAT: &'static str = "%-Y-%-m-%-d-%-Hh%-Mm%-Ss";

/// The pattern of timestamps shown to people.
pub const DISPLAY_FORMAT: &'static str = "%d/%m/%Y %H:%M:%S";

/// The pattern of dates shown to people.
pub const DISPLAY_DATE_ONLY_FORMAT: &'static str = "%d/%m/%Y";

/// Whether a pattern is one of the library's timestamp patterns.
pub open spec fn known_pattern(p: Seq<char>) -> bool {
    p == FILE_FORMAT@ || p == DISPLAY_FORMAT@ || p == DISPLAY_DATE_ONLY_FORMAT@
}

/// The instant, as seconds and nanoseconds since the Unix epoch in UTC, that chrono's
/// RFC 3339 parser reads from a text, if the text is a valid RFC 3339 timestamp.
pub uninterp spec fn rfc3339_instant(s: Seq<char>) -> Option<(i64, u32)>;

/// Whether an instant lies well inside chrono's calendar: between the years 0 and 9999
/// give or take a day, with a leap second only in the last second of a minute.
pub open spec fn in_calendar(secs: i64, nanos: u32) -> bool {
    &&& -62_200_000_000 <= secs <= 253_500_000_000
    &&& (nanos < 1_000_000_000 || (nanos < 2_000_000_000 && secs % 60 == 59))
}

/// Relies on chrono's `DateTime::parse_from_rfc3339`: the instant depends on the text
/// alone. The text has a four-digit year and an offset of less than a day in whole
/// minutes, and a leap second is read as second 59 plus a second's worth of nanoseconds.
#[verifier::external_body]
fn parse_rfc3339(s: &str) -> (r: Option<(i64, u32)>)
    ensures
        r == rfc3339_instant(s@),
        r is Some ==> in_calendar(r->Some_0.0, r->Some_0.1),
{
    chrono::DateTime::parse_from_rfc3339(s).ok().map(|d| (d.timestamp(), d.timestamp_subsec_nanos()))
}

/// Relies on chrono's `Utc::now`: the current instant.
#[verifier::external_body]
fn now_instant() -> (i64, u32) {
    let d = chrono::Utc::now();
    (d.timestamp(), d.timestamp_subsec_nanos())
}

/// Relies on chrono's `DateTime::from_timestamp`, which fails only outside its calendar
/// (years beyond about 262000) or on a misplaced leap second, and on formatting in the
/// machine's local time zone, whose text depends on the machine.
#[verifier::external_body]
fn format_local(secs: i64, nanos: u32, pattern: &str) -> (r: Option<String>)
    requires
        known_pattern(pattern@),
    ensures
        in_calendar(secs, nanos) ==> r is Some,
        r is Some ==> r->Some_0@.len() > 0,
{
    chrono::DateTime::from_timestamp(secs, nanos).map(
        |d| d.with_timezone(&chrono::Local).format(pattern).to_string(),
    )
}

/// An instant: seconds since the Unix epoch in UTC and the nanoseconds within that second.
#[derive(Clone, Copy, Debug, PartialEq, Eq, Structural)]
pub struct Timestamp {
    pub secs: i64,
    pub nanos: u32,
}

/// The timestamp that a text holds, if it is a valid RFC 3339 timestamp.
pub open spec fn timestamp_of(s: Seq<char>) -> Option<Timestamp> {
    match rfc3339_instant(s) {
        Some(p) => Some(Timestamp { secs: p.0, nanos: p.1 }),
        None => None,
    }
}

impl Timestamp {
    /// The current instant.
    pub fn now() -> Timestamp {
        let (secs, nanos) = now_instant();
        Timestamp { secs, nanos }
    }

    /// Reads an RFC 3339 timestamp.
    pub fn from_str(s: &str) -> (r: Result<Timestamp, Error>)
        ensures
            r is Ok <==> timestamp_of(s@) is Some,
            r is Ok ==> r->Ok_0 == timestamp_of(s@)->Some_0,
            r is Ok ==> in_calendar(r->Ok_0.secs, r->Ok_0.nanos),
    {
        match parse_rfc3339(s) {
            Some((secs, nanos)) => Ok(Timestamp { secs, nanos }),
            None => Err(Error::new("invalid timestamp")),
        }
    }

    /// Writes the instant in the machine's local time with one of the library's
    /// patterns. The text depends on the machine's time zone; an instant inside the
    /// calendar always has one.
    pub fn format(&self, pattern: &str) -> (r: Option<String>)
        requires
            known_pattern(pattern@),
        ensures
            in_calendar(self.secs, self.nanos) ==> r is Some,
            r is Some ==> r->Some_0@.len() > 0,
    {
        format_local(self.secs, self.nanos, pattern)
    }
}

/// A point-in-time view of one collection.
#[derive(Debug)]
pub struct CollectionStats {
    pub name: String,
    pub count: u64,
    pub latest_mt: Option<Timestamp>,
    /// `latest_mt` as people read it.
    pub latest_mt_formatted: Option<String>,
}

/// The modification time that the most recently modified record carries, if it holds a
/// valid RFC 3339 text under the modification-time field.
pub open spec fn latest_of(latest: Option<Json>) -> Option<Timestamp> {
    match latest {
        Some(Json::Object(entries)) => match lookup(entries@, MODIFIED_TIME_KEY@) {
            Some(Json::Str(s)) => timestamp_of(s@),
            _ => None,
        },
        _ => None,
    }
}

impl CollectionStats {
    /// The statistics of a collection of `count` items whose most recently modified
    /// record is `latest`. A missing or unreadable time gives no timestamp.
    pub fn from_latest(name: String, count: u64, latest: Option<Json>) -> (r: CollectionStats)
        ensures
            r.name == name,
            r.count == count,
            r.latest_mt == latest_of(latest),
            r.latest_mt is None <==> r.latest_mt_formatted is None,
    {
        let latest_mt: Option<Timestamp> = match &latest {
            Some(Json::Object(entries)) => match get(entries, MODIFIED_TIME_KEY) {
                Some(Json::Str(s)) => match Timestamp::from_str(s.as_str()) {
                    Ok(t) => Some(t),
                    Err(_) => None,
                },
                _ => None,
            },
            _ => None,
        };
        let latest_mt_formatted = match &latest_mt {
            Some(t) => t.format(DISPLAY_FORMAT),
            None => None,
        };
        CollectionStats { name, count, latest_mt, latest_mt_formatted }
    }
}

/// The manifest of a backup.
#[derive(Debug)]
pub struct Backup {
    pub timestamp: Timestamp,
    pub timestamp_formatted: String,
    pub stats: Vec<CollectionStats>,
}

impl Backup {
    /// A manifest taken at `timestamp` over `stats`. The formatted time is the instant in
    /// the machine's local time, so its text depends on the machine; it is empty only for
    /// an instant outside the calendar.
    pub fn at(timestamp: Timestamp, stats: Vec<CollectionStats>) -> (r: Backup)
        ensures
            r.timestamp == timestamp,
            r.stats == stats,
            in_calendar(timestamp.secs, timestamp.nanos) ==> r.timestamp_formatted@.len() > 0,
    {
        let timestamp_formatted = match timestamp.format(DISPLAY_FORMAT) {
            Some(s) => s,
            None => String::new(),
        };
        Backup { timestamp, timestamp_formatted, stats }
    }

    /// A manifest taken now over `stats`.
    pub fn new(stats: Vec<CollectionStats>) -> (r: Backup)
        ensures
            r.stats == stats,
    {
        Backup::at(Timestamp::now(), stats)
    }
}

/// Whether a backup leaves a collection out.
pub open spec fn skippable(name: Seq<char>) -> bool {
    SKIPPABLE_PREFIX@.len() <= name.len() && name.subrange(0, SKIPPABLE_PREFIX@.len() as int)
        == SKIPPABLE_PREFIX@
}

/// Whether a backup leaves the collection `name` out: its name starts with `cached`.
pub fn is_skippable(name: &str) -> (r: bool)
    ensures
        r == skippable(name@),
{
    has_prefix(name, SKIPPABLE_PREFIX)
}

/// Keeps the statistics of a collection that a backup writes.
pub open spec fn kept_stats() -> spec_fn(CollectionStats) -> Option<CollectionStats> {
    |s: CollectionStats|
        if skippable(s.name@) {
            None
        } else {
            Some(s)
        }
}

/// Keeps the name of a collection that a backup writes.
pub open spec fn kept_name() -> spec_fn(String) -> Option<String> {
    |s: String|
        if skippable(s@) {
            None
        } else {
            Some(s)
        }
}

/// The statistics that a backup manifest lists: those of the collections it keeps.
pub fn backup_stats(stats: Vec<CollectionStats>) -> (r: Vec<CollectionStats>)
    ensures
        r@ == stats@.filter_map(kept_stats()),
{
    let ghost all = stats@;
    let mut rev = reversed(stats);
    let mut out: Vec<CollectionStats> = Vec::new();
    while rev.len() > 0
        invariant
            rev@.len() <= all.len(),
            forall|j: int| 0 <= j < rev@.len() ==> rev@[j] == all[all.len() - 1 - j],
            out@ == all.take(all.len() - rev@.len()).filter_map(kept_stats()),
        decreases rev.len(),
    {
        let ghost k = all.len() - rev@.len();
        let s = rev.pop().unwrap();
        proof {
            all.lemma_filter_map_take_succ(kept_stats(), k);
        }
        if !is_skippable(s.name.as_str()) {
            out.push(s);
        }
    }
    assert(all.take(all.len() as int) == all);
    out
}

/// The collections that a backup writes, in order.
pub fn backup_collections(names: Vec<String>) -> (r: Vec<String>)
    ensures
        r@ == names@.filter_map(kept_name()),
{
    let ghost all = names@;
    let mut rev = reversed(names);
    let mut out: Vec<String> = Vec::new();
    while rev.len() > 0
        invariant
            rev@.len() <= all.len(),
            forall|j: int| 0 <= j < rev@.len() ==> rev@[j] == all[all.len() - 1 - j],
            out@ == all.take(all.len() - rev@.len()).filter_map(kept_name()),
        decreases rev.len(),
    {
        let ghost k = all.len() - rev@.len();
        let s = rev.pop().unwrap();
        proof {
            all.lemma_filter_map_take_succ(kept_name(), k);
        }
        if !is_skippable(s.as_str()) {
            out.push(s);
        }
    }
    assert(all.take(all.len() as int) == all);
    out
}

/// Whether `w` is the record `v` as a backup writes it: an object without its
/// identifier field, anything else as it is.
pub open spec fn stripped(v: Json, w: Json) -> bool {
    match v {
        Json::Object(entries) => w is Object && w->Object_0@ == without_key(entries@, PRIMARY_KEY@),
        _ => w == v,
    }
}

/// Takes the identifier field out of every record, so that a backup can be imported as
/// fresh inserts.
pub fn strip_identifiers(records: Vec<Json>) -> (r: Vec<Json>)
    ensures
        r@.len() == records@.len(),
        forall|i: int| 0 <= i < records@.len() ==> stripped(#[trigger] records@[i], r@[i]),
{
    let ghost all = records@;
    let mut rev = reversed(records);
    let mut out: Vec<Json> = Vec::new();
    while rev.len() > 0
        invariant
            rev@.len() <= all.len(),
            forall|j: int| 0 <= j < rev@.len() ==> rev@[j] == all[all.len() - 1 - j],
            out@.len() == all.len() - rev@.len(),
            forall|i: int| 0 <= i < out@.len() ==> stripped(#[trigger] all[i], out@[i]),
        decreases rev.len(),
    {
        match rev.pop().unwrap() {
            Json::Object(entries) => out.push(Json::Object(remove_key(entries, PRIMARY_KEY))),
            other => out.push(other),
        }
    }
    out
}

/// The file that a backup writes for a collection: `<collection>.json`.
pub fn backup_file_name(collection: &str) -> (r: String)
    ensures
        r@ == collection@ + ".json"@,
{
    String::from_str(collection).concat(".json")
}

/// No record that a backup writes holds an identifier field at its top level.
pub proof fn lemma_backup_has_no_identifier(records: Seq<Json>, written: Seq<Json>)
    requires
        written.len() == records.len(),
        forall|i: int| 0 <= i < records.len() ==> stripped(#[trigger] records[i], written[i]),
    ensures
        forall|i: int, m: int|
            0 <= i < written.len() && written[i] is Object && 0 <= m < written[i]->Object_0@.len()
                ==> (#[trigger] written[i]->Object_0@[m]).0@ != PRIMARY_KEY@,
{
    assert forall|i: int, m: int|
        0 <= i < written.len() && written[i] is Object && 0 <= m < written[i]->Object_0@.len()
            implies (#[trigger] written[i]->Object_0@[m]).0@ != PRIMARY_KEY@ by {
        assert(stripped(records[i], written[i]));
        if records[i] is Object {
            crate::bulk::lemma_without_key(records[i]->Object_0@, PRIMARY_KEY@);
        } else {
            assert(written[i] == records[i]);
        }
    }
}

/// The confirmation for an index created on a collection: `<collection>: <index>`.
pub fn index_confirmation(collection: &str, index_name: &str) -> (r: String)
    ensures
        r@ == collection@ + ": "@ + index_name@,
{
    let mut r = String::from_str(collection);
    r.append(": ");
    r.append(index_name);
    r
}

/// Which index requests the engine carried out.
pub open spec fn created_flags(created: Seq<Option<String>>) -> Seq<bool> {
    Seq::new(created.len(), |i: int| created[i] is Some)
}

/// Confirms the indexes that were created: `created[i]` is the name of the index that the
/// engine made for the i-th request, or nothing where it failed. Failures are left out.
pub fn index_results(params: &Vec<CreateUniqueIndexParams>, created: &Vec<Option<String>>) -> (r: Vec<String>)
    requires
        params@.len() == created@.len(),
    ensures
        ({
            let p = positions(created_flags(created@));
            &&& r@.len() == p.len()
            &&& forall|j: int|
                0 <= j < r@.len() ==> (#[trigger] r@[j])@ == params@[p[j]].collection@ + ": "@
                    + created@[p[j]]->Some_0@
        }),
{
    let ghost flags = created_flags(created@);
    let mut out: Vec<String> = Vec::new();
    let mut i: usize = 0;
    while i < params.len()
        invariant
            i <= params@.len(),
            params@.len() == created@.len(),
            flags == created_flags(created@),
            ({
                let p = positions(flags.take(i as int));
                &&& out@.len() == p.len()
                &&& forall|j: int|
                    0 <= j < out@.len() ==> (#[trigger] out@[j])@ == params@[p[j]].collection@
                        + ": "@ + created@[p[j]]->Some_0@
            }),
        decreases params.len() - i,
    {
        assert(flags.take(i + 1).drop_last() == flags.take(i as int));
        match &created[i] {
            Some(name) => {
                out.push(index_confirmation(params[i].collection.as_str(), name.as_str()));
            },
            None => {},
        }
        i = i + 1;
    }
    assert(flags.take(params@.len() as int) == flags);
    out
}

/// The keys of a compound ascending index over `fields`, in order.
pub fn index_keys(fields: Vec<String>) -> (r: Document)
    ensures
        r.entries@.len() == fields@.len(),
        forall|i: int|
            0 <= i < fields@.len() ==> #[trigger] r.entries@[i] == (
                fields@[i],
                Native::Value(Json::Number(JsonNumber::PosInt(1))),
            ),
{
    let ghost all = fields@;
    let mut rev = reversed(fields);
    let mut out: Vec<(String, Native)> = Vec::new();
    while rev.len() > 0
        invariant
            rev@.len() <= all.len(),
            forall|j: int| 0 <= j < rev@.len() ==> rev@[j] == all[all.len() - 1 - j],
            out@.len() == all.len() - rev@.len(),
            forall|i: int|
                0 <= i < out@.len() ==> #[trigger] out@[i] == (
                    all[i],
                    Native::Value(Json::Number(JsonNumber::PosInt(1))),
                ),
        decreases rev.len(),
    {
        let f = rev.pop().unwrap();
        out.push((f, Native::Value(Json::Number(JsonNumber::PosInt(1)))));
    }
    Document { entries: out }
}

} // verus!
