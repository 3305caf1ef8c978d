use vstd::prelude::*;
use crate::error::Error;
use crate::json::{Json, JsonNumber, number_of_i64, number_from_i64, is_finite_bits, lookup, get, reversed};
use crate::text::{has_prefix, has_suffix, str_eq, join, joined, views};

verus! {

/// The marker that opens a text value holding embedded JSON.
pub const FENCE_OPEN: &'static str = "```json";

/// The marker that closes a text value holding embedded JSON.
pub const FENCE_CLOSE: &'static str = "```";

/// The statement that lists the tables of the relational engine.
pub const TABLES_SQL: &'static str = "SELECT name FROM sqlite_master WHERE type = 'table' AND name NOT LIKE 'sqlite_%'";

/// The outcome of one statement run by the relational engine.
#[derive(Clone, Copy, Debug, PartialEq, Eq, Structural)]
pub struct ExecutionResult {
    pub rows_affected: u64,
    pub last_insert_row: i64,
}

/// The declared type of a result column, as the engine reports it.
#[derive(Clone, Copy, Debug, PartialEq, Eq, Structural)]
pub enum ColumnKind {
    Null,
    Text,
    Integer,
    Real,
    Boolean,
    Unsupported,
}

/// A column value as the relational engine returns it, read according to its kind.
#[derive(Debug)]
pub enum Cell {
    Null,
    Text(String),
    Integer(i64),
    /// A binary64 value, held as its bit pattern.
    Real(u64),
    Boolean(bool),
    /// A value of a type that has no wire form.
    Unsupported,
}

/// The kind of a column by its reported type name.
pub open spec fn kind_of(name: Seq<char>) -> ColumnKind {
    if name == "NULL"@ {
        ColumnKind::Null
    } else if name == "TEXT"@ {
        ColumnKind::Text
    } else if name == "INTEGER"@ {
        ColumnKind::Integer
    } else if name == "REAL"@ {
        ColumnKind::Real
    } else if name == "BOOLEAN"@ {
        ColumnKind::Boolean
    } else {
        ColumnKind::Unsupported
    }
}

/// Classifies a column by its reported type name.
pub fn column_kind(declared: &str) -> (r: ColumnKind)
    ensures
        r == kind_of(declared@),
{
    if str_eq(declared, "NULL") {
        ColumnKind::Null
    } else if str_eq(declared, "TEXT") {
        ColumnKind::Text
    } else if str_eq(declared, "INTEGER") {
        ColumnKind::Integer
    } else if str_eq(declared, "REAL") {
        ColumnKind::Real
    } else if str_eq(declared, "BOOLEAN") {
        ColumnKind::Boolean
    } else {
        ColumnKind::Unsupported
    }
}

/// The value that serde_json's parser gives for a text, if the text is JSON.
pub uninterp spec fn parsed_json(s: Seq<char>) -> Option<Json>;

/// Declares serde_json's value type, which the parser returns.
#[verifier::external_type_specification]
#[verifier::external_body]
pub struct ExJsonValue(serde_json::Value);

/// Declares serde_json's number type.
#[verifier::external_type_specification]
#[verifier::external_body]
pub struct ExJsonNumber(serde_json::Number);

/// Relies on serde_json's `Number::as_u64` and `Number::as_i64` to tell its three forms
/// apart; a fractional number is kept as its bit pattern.
#[verifier::external_body]
fn number_from_serde(n: &serde_json::Number) -> JsonNumber {
    match (n.as_u64(), n.as_i64()) {
        (Some(u), _) => JsonNumber::PosInt(u),
        (None, Some(i)) => JsonNumber::NegInt(i),
        _ => JsonNumber::Real(n.as_f64().map_or(0, |x| x.to_bits())),
    }
}

/// Carries a parsed serde_json value over into the library's value, one node for one.
#[verifier::external_body]
fn json_from_serde(v: serde_json::Value) -> Json {
    match v {
        serde_json::Value::Null => Json::Null,
        serde_json::Value::Bool(b) => Json::Bool(b),
        serde_json::Value::Number(n) => Json::Number(number_from_serde(&n)),
        serde_json::Value::String(s) => Json::Str(s),
        serde_json::Value::Array(a) => Json::Array(a.into_iter().map(json_from_serde).collect()),
        serde_json::Value::Object(m) => Json::Object(
            m.into_iter().map(|(k, v)| (k, json_from_serde(v))).collect(),
        ),
    }
}

/// Relies on `serde_json::from_str`: the parse depends on the text alone.
#[verifier::external_body]
fn parse_json(s: &str) -> (r: Option<Json>)
    ensures
        r == parsed_json(s@),
{
    serde_json::from_str::<serde_json::Value>(s).ok().map(json_from_serde)
}

/// Whether a text is wrapped in the embedded-JSON markers.
pub open spec fn is_fenced(s: Seq<char>) -> bool {
    &&& FENCE_OPEN@.len() <= s.len()
    &&& s.subrange(0, FENCE_OPEN@.len() as int) == FENCE_OPEN@
    &&& FENCE_CLOSE@.len() <= s.len()
    &&& s.subrange(s.len() - FENCE_CLOSE@.len(), s.len() as int) == FENCE_CLOSE@
}

/// The text between the markers.
pub open spec fn fenced_body(s: Seq<char>) -> Seq<char> {
    s.subrange(7, s.len() - 3)
}

/// The wire value of a text column: a fenced text whose body parses as JSON becomes the
/// parsed value; any other text stays a string.
pub open spec fn text_value(s: String) -> Json {
    if is_fenced(s@) {
        match parsed_json(fenced_body(s@)) {
            Some(j) => j,
            None => Json::Str(s),
        }
    } else {
        Json::Str(s)
    }
}

/// Both markers fit in a fenced text without overlapping.
proof fn lemma_fenced_len(s: Seq<char>)
    requires
        is_fenced(s),
    ensures
        s.len() >= 10,
{
    reveal_strlit("```json");
    reveal_strlit("```");
    assert(FENCE_OPEN@ == "```json"@);
    assert(FENCE_CLOSE@ == "```"@);
    let head = s.subrange(0, 7);
    let tail = s.subrange(s.len() - 3, s.len() as int);
    assert(head[6] == 'n');
    assert(head[6] == s[6]);
    assert(tail[2] == '`' && tail[1] == '`' && tail[0] == '`');
    if s.len() < 10 {
        assert(tail[9 - s.len()] == s[6]);
    }
}

/// Decodes a text column.
pub fn decode_text(s: String) -> (r: Json)
    ensures
        r == text_value(s),
{
    proof {
        reveal_strlit("```json");
        reveal_strlit("```");
    }
    if has_prefix(s.as_str(), FENCE_OPEN) && has_suffix(s.as_str(), FENCE_CLOSE) {
        proof {
            lemma_fenced_len(s@);
        }
        let n = s.as_str().unicode_len();
        let parsed = parse_json(s.as_str().substring_char(7, n - 3));
        match parsed {
            Some(j) => j,
            None => Json::Str(s),
        }
    } else {
        Json::Str(s)
    }
}

/// Whether a column value has no wire form: a type without one, or a value that is not
/// a finite number.
pub open spec fn cell_fails(c: Cell) -> bool {
    match c {
        Cell::Real(bits) => !is_finite_bits(bits),
        Cell::Unsupported => true,
        _ => false,
    }
}

/// The wire value of a column value that has one.
pub open spec fn cell_json(c: Cell) -> Json {
    match c {
        Cell::Null => Json::Null,
        Cell::Text(s) => text_value(s),
        Cell::Integer(n) => Json::Number(number_of_i64(n)),
        Cell::Real(bits) => Json::Number(JsonNumber::Real(bits)),
        Cell::Boolean(b) => Json::Bool(b),
        Cell::Unsupported => Json::Null,
    }
}

/// The message of the failure for a column value without a wire form.
pub open spec fn cell_error(c: Cell) -> Seq<char> {
    match c {
        Cell::Real(_) => "invalid number"@,
        _ => "invalid type"@,
    }
}

/// Decodes one column value.
pub fn decode_cell(c: Cell) -> (r: Result<Json, Error>)
    ensures
        r is Err <==> cell_fails(c),
        r is Ok ==> r->Ok_0 == cell_json(c),
        r is Err ==> r->Err_0.message@ == cell_error(c),
{
    match c {
        Cell::Null => Ok(Json::Null),
        Cell::Text(s) => Ok(decode_text(s)),
        Cell::Integer(n) => Ok(Json::Number(number_from_i64(n))),
        Cell::Real(bits) => {
            if (bits >> 52u64) & 0x7ffu64 != 0x7ffu64 {
                Ok(Json::Number(JsonNumber::Real(bits)))
            } else {
                Err(Error::new("invalid number"))
            }
        },
        Cell::Boolean(b) => Ok(Json::Bool(b)),
        Cell::Unsupported => Err(Error::new("invalid type")),
    }
}

/// Whether every column of a row has a wire form.
pub open spec fn row_ok(cols: Seq<(String, Cell)>) -> bool {
    forall|i: int| 0 <= i < cols.len() ==> !cell_fails(#[trigger] cols[i].1)
}

/// Whether column `k` is the first of the row without a wire form.
pub open spec fn first_failure(cols: Seq<(String, Cell)>, k: int) -> bool {
    &&& 0 <= k < cols.len()
    &&& cell_fails(cols[k].1)
    &&& forall|j: int| 0 <= j < k ==> !cell_fails(#[trigger] cols[j].1)
}

/// Whether `j` is the wire object of a row: each column, in order, under its name.
pub open spec fn row_json(cols: Seq<(String, Cell)>, j: Json) -> bool {
    &&& j is Object
    &&& j->Object_0@.len() == cols.len()
    &&& forall|i: int|
        0 <= i < cols.len() ==> #[trigger] j->Object_0@[i] == (cols[i].0, cell_json(cols[i].1))
}

/// Decodes a result row. A column without a wire form fails the whole row.
pub fn decode_row(cols: Vec<(String, Cell)>) -> (r: Result<Json, Error>)
    ensures
        r is Ok <==> row_ok(cols@),
        r is Ok ==> row_json(cols@, r->Ok_0),
        r is Err ==> exists|k: int|
            first_failure(cols@, k) && r->Err_0.message@ == cell_error(#[trigger] cols@[k].1),
{
    let ghost all = cols@;
    let mut rev = reversed(cols);
    let mut out: Vec<(String, Json)> = Vec::new();
    while rev.len() > 0
        invariant
            rev@.len() <= all.len(),
            forall|j: int| 0 <= j < rev@.len() ==> rev@[j] == all[all.len() - 1 - j],
            out@.len() == all.len() - rev@.len(),
            all == cols@,
            forall|i: int| 0 <= i < out@.len() ==> !cell_fails(#[trigger] all[i].1),
            forall|i: int| 0 <= i < out@.len() ==> #[trigger] out@[i] == (all[i].0, cell_json(all[i].1)),
        decreases rev.len(),
    {
        let ghost k = all.len() - rev@.len();
        let (name, cell) = rev.pop().unwrap();
        assert(all[k].1 == cell);
        match decode_cell(cell) {
            Ok(v) => out.push((name, v)),
            Err(e) => {
                assert(0 <= k < all.len());
                assert(cell_fails(all[k].1));
                assert(!row_ok(all));
                assert(first_failure(all, k));
                return Err(e);
            },
        }
    }
    Ok(Json::Object(out))
}

/// Decodes every row of a result; one failing row fails the whole fetch.
pub fn decode_rows(rows: Vec<Vec<(String, Cell)>>) -> (r: Result<Vec<Json>, Error>)
    ensures
        r is Ok <==> forall|i: int| 0 <= i < rows@.len() ==> row_ok(#[trigger] rows@[i]@),
        r is Ok ==> r->Ok_0@.len() == rows@.len() && forall|i: int|
            0 <= i < rows@.len() ==> row_json(#[trigger] rows@[i]@, r->Ok_0@[i]),
        r is Err ==> exists|i: int, k: int|
            0 <= i < rows@.len() && (forall|j: int| 0 <= j < i ==> row_ok(#[trigger] rows@[j]@))
                && #[trigger] first_failure(rows@[i]@, k) && r->Err_0.message@ == cell_error(
                rows@[i]@[k].1,
            ),
{
    let ghost all = rows@;
    let mut rev = reversed(rows);
    let mut out: Vec<Json> = Vec::new();
    while rev.len() > 0
        invariant
            rev@.len() <= all.len(),
            forall|j: int| 0 <= j < rev@.len() ==> rev@[j] == all[all.len() - 1 - j],
            out@.len() == all.len() - rev@.len(),
            all == rows@,
            forall|i: int| 0 <= i < out@.len() ==> row_ok(#[trigger] all[i]@),
            forall|i: int| 0 <= i < out@.len() ==> row_json(#[trigger] all[i]@, out@[i]),
        decreases rev.len(),
    {
        let ghost k = all.len() - rev@.len();
        let row = rev.pop().unwrap();
        assert(all[k] == row);
        match decode_row(row) {
            Ok(j) => out.push(j),
            Err(e) => {
                assert(0 <= k < all.len());
                assert(!row_ok(all[k]@));
                assert(!(forall|i: int| 0 <= i < all.len() ==> row_ok(#[trigger] all[i]@)));
                return Err(e);
            },
        }
    }
    Ok(out)
}

/// A text wrapped in the markers is fetched back as the value that its body parses to.
pub proof fn lemma_embedded_json(s: String)
    requires
        is_fenced(s@),
        parsed_json(fenced_body(s@)) is Some,
    ensures
        cell_json(Cell::Text(s)) == parsed_json(fenced_body(s@))->Some_0,
        !cell_fails(Cell::Text(s)),
{
}

/// A request for a unique index over some fields of a collection.
#[derive(Debug)]
pub struct CreateUniqueIndexParams {
    pub collection: String,
    pub fields: Vec<String>,
}

/// The name of the unique index over `fields`.
pub open spec fn index_name_of(fields: Seq<Seq<char>>) -> Seq<char> {
    joined(fields, "_"@) + "_unique_index"@
}

/// Names the unique index over `fields`: the fields joined by `_`, then `_unique_index`.
pub fn unique_index_name(fields: &Vec<String>) -> (r: String)
    ensures
        r@ == index_name_of(views(fields@)),
{
    join(fields, "_").concat("_unique_index")
}

/// The statement that creates the unique index over `fields`, unless it exists.
pub fn unique_index_sql(collection: &str, fields: &Vec<String>) -> (r: String)
    ensures
        r@ == "CREATE UNIQUE INDEX IF NOT EXISTS "@ + index_name_of(views(fields@)) + " ON "@
            + collection@ + " ("@ + joined(views(fields@), ", "@) + ")"@,
{
    let mut r = String::from_str("CREATE UNIQUE INDEX IF NOT EXISTS ");
    let name = unique_index_name(fields);
    r.append(name.as_str());
    r.append(" ON ");
    r.append(collection);
    r.append(" (");
    let cols = join(fields, ", ");
    r.append(cols.as_str());
    r.append(")");
    r
}

/// The statement that drops a table, if it exists.
pub fn drop_table_sql(name: &str) -> (r: String)
    ensures
        r@ == "DROP TABLE IF EXISTS "@ + name@,
{
    String::from_str("DROP TABLE IF EXISTS ").concat(name)
}

/// The statement that counts the rows of a table.
pub fn count_sql(name: &str) -> (r: String)
    ensures
        r@ == "SELECT COUNT(*) FROM "@ + name@,
{
    String::from_str("SELECT COUNT(*) FROM ").concat(name)
}

/// The table name that a listing row holds, if it holds one as a string.
pub open spec fn name_in_row(row: Json) -> Option<String> {
    match row {
        Json::Object(entries) => match lookup(entries@, "name"@) {
            Some(Json::Str(s)) => Some(s),
            _ => None,
        },
        _ => None,
    }
}

/// The table names of a listing, in order; rows without a string name are skipped.
pub fn table_names(rows: &Vec<Json>) -> (r: Vec<String>)
    ensures
        r@ == rows@.filter_map(|row: Json| name_in_row(row)),
{
    let mut out: Vec<String> = Vec::new();
    let mut i: usize = 0;
    while i < rows.len()
        invariant
            i <= rows@.len(),
            out@ == rows@.take(i as int).filter_map(|row: Json| name_in_row(row)),
        decreases rows.len() - i,
    {
        proof {
            rows@.lemma_filter_map_take_succ(|row: Json| name_in_row(row), i as int);
        }
        match &rows[i] {
            Json::Object(entries) => match get(entries, "name") {
                Some(Json::Str(s)) => out.push(s.clone()),
                _ => {},
            },
            _ => {},
        }
        i = i + 1;
    }
    assert(rows@.take(rows@.len() as int) == rows@);
    out
}

/// The count that a counting query returns: the first column of the first row, when it
/// is a non-negative integer, else 0.
pub open spec fn count_in_rows(rows: Seq<Json>) -> u64 {
    if rows.len() > 0 && rows[0] is Object && rows[0]->Object_0@.len() > 0 {
        match rows[0]->Object_0@[0].1 {
            Json::Number(JsonNumber::PosInt(n)) => n,
            _ => 0,
        }
    } else {
        0
    }
}

/// Reads the result of a counting query.
pub fn count_from_rows(rows: &Vec<Json>) -> (r: u64)
    ensures
        r == count_in_rows(rows@),
{
    if rows.len() == 0 {
        return 0;
    }
    match &rows[0] {
        Json::Object(entries) => {
            if entries.len() == 0 {
                0
            } else {
                match entries[0].1.as_u64() {
                    Some(n) => n,
                    None => 0,
                }
            }
        },
        _ => 0,
    }
}

/// Scalars come back from the relational engine as they were stored: a null as null, an
/// unfenced text as that text, an integer as that integer, a finite real as that number,
/// a boolean as that boolean; none of them fails.
pub proof fn lemma_relational_scalars(s: String, n: i64, bits: u64, b: bool)
    ensures
        !cell_fails(Cell::Null) && cell_json(Cell::Null) == Json::Null,
        !is_fenced(s@) ==> !cell_fails(Cell::Text(s)) && cell_json(Cell::Text(s)) == Json::Str(s),
        !cell_fails(Cell::Integer(n)) && cell_json(Cell::Integer(n)) == Json::Number(
            number_of_i64(n),
        ),
        is_finite_bits(bits) ==> !cell_fails(Cell::Real(bits)) && cell_json(Cell::Real(bits))
            == Json::Number(JsonNumber::Real(bits)),
        !cell_fails(Cell::Boolean(b)) && cell_json(Cell::Boolean(b)) == Json::Bool(b),
{
}

} // verus!
