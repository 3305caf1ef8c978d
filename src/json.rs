use vstd::prelude::*;

verus! {

/// A JSON number as the wire carries it.
#[derive(Clone, Copy, Debug, PartialEq, Eq, Structural)]
pub enum JsonNumber {
    /// A non-negative integer.
    PosInt(u64),
    /// A negative integer.
    NegInt(i64),
    /// A finite IEEE-754 binary64 value, held as its bit pattern.
    Real(u64),
}

/// The wire value: an untyped JSON tree. An object keeps its entries in order.
#[derive(Debug)]
pub enum Json {
    Null,
    Bool(bool),
    Number(JsonNumber),
    Str(String),
    Array(Vec<Json>),
    Object(Vec<(String, Json)>),
}

/// The number that a signed 64-bit integer becomes on the wire.
pub open spec fn number_of_i64(n: i64) -> JsonNumber {
    if n >= 0 {
        JsonNumber::PosInt(n as u64)
    } else {
        JsonNumber::NegInt(n)
    }
}

/// Converts a signed 64-bit integer to a wire number.
pub fn number_from_i64(n: i64) -> (r: JsonNumber)
    ensures
        r == number_of_i64(n),
{
    if n >= 0 {
        JsonNumber::PosInt(n as u64)
    } else {
        JsonNumber::NegInt(n)
    }
}

/// Whether a binary64 bit pattern is a finite value: its exponent is not all ones.
pub open spec fn is_finite_bits(bits: u64) -> bool {
    (bits >> 52u64) & 0x7ffu64 != 0x7ffu64
}

/// The unsigned integer that a value holds, if it is a non-negative integer.
pub open spec fn as_u64_spec(v: Json) -> Option<u64> {
    match v {
        Json::Number(JsonNumber::PosInt(n)) => Some(n),
        _ => None,
    }
}

impl Json {
    /// The unsigned integer held, if this is a non-negative integer.
    pub fn as_u64(&self) -> (r: Option<u64>)
        ensures
            r == as_u64_spec(*self),
    {
        match self {
            Json::Number(JsonNumber::PosInt(n)) => Some(*n),
            _ => None,
        }
    }

    /// The text held, if this is a string.
    pub fn as_str(&self) -> (r: Option<&str>)
        ensures
            match *self {
                Json::Str(s) => r.is_some() && r.unwrap()@ == s@,
                _ => r.is_none(),
            },
    {
        match self {
            Json::Str(s) => Some(s.as_str()),
            _ => None,
        }
    }
}

/// The index of the first entry under `key`, or the length if there is none.
pub open spec fn first_index(entries: Seq<(String, Json)>, key: Seq<char>) -> int
    decreases entries.len(),
{
    if entries.len() == 0 {
        0
    } else if entries[0].0@ == key {
        0
    } else {
        1 + first_index(entries.drop_first(), key)
    }
}

/// The value of the first entry under `key`.
pub open spec fn lookup(entries: Seq<(String, Json)>, key: Seq<char>) -> Option<Json> {
    let i = first_index(entries, key);
    if i < entries.len() {
        Some(entries[i].1)
    } else {
        None
    }
}

/// Keeps an entry unless it stands under `key`.
pub open spec fn keep_other(key: Seq<char>) -> spec_fn((String, Json)) -> Option<(String, Json)> {
    |e: (String, Json)|
        if e.0@ != key {
            Some(e)
        } else {
            None
        }
}

/// The entries whose key is not `key`, in their order.
pub open spec fn without_key(entries: Seq<(String, Json)>, key: Seq<char>) -> Seq<(String, Json)> {
    entries.filter_map(keep_other(key))
}

/// The first index under `key` is in range, no earlier entry has the key, and the
/// entry there, if any, has it.
pub proof fn lemma_first_index(entries: Seq<(String, Json)>, key: Seq<char>)
    ensures
        0 <= first_index(entries, key) <= entries.len(),
        forall|j: int| 0 <= j < first_index(entries, key) ==> entries[j].0@ != key,
        first_index(entries, key) < entries.len() ==> entries[first_index(entries, key)].0@
            == key,
    decreases entries.len(),
{
    if entries.len() > 0 && entries[0].0@ != key {
        lemma_first_index(entries.drop_first(), key);
        assert forall|j: int| 0 <= j < first_index(entries, key) implies entries[j].0@ != key by {
            if j > 0 {
                assert(entries[j] == entries.drop_first()[j - 1]);
            }
        }
    }
}

/// Looks up the value of the first entry under `key`.
pub fn get<'a>(entries: &'a Vec<(String, Json)>, key: &str) -> (r: Option<&'a Json>)
    ensures
        match lookup(entries@, key@) {
            Some(v) => r.is_some() && *r.unwrap() == v,
            None => r.is_none(),
        },
{
    proof {
        lemma_first_index(entries@, key@);
    }
    let mut i: usize = 0;
    while i < entries.len()
        invariant
            i <= entries.len(),
            forall|j: int| 0 <= j < i ==> entries@[j].0@ != key@,
            0 <= first_index(entries@, key@) <= entries@.len(),
            forall|j: int| 0 <= j < first_index(entries@, key@) ==> entries@[j].0@ != key@,
            first_index(entries@, key@) < entries@.len() ==> entries@[first_index(
                entries@,
                key@,
            )].0@ == key@,
        decreases entries.len() - i,
    {
        if crate::text::str_eq(entries[i].0.as_str(), key) {
            assert(first_index(entries@, key@) == i);
            return Some(&entries[i].1);
        }
        i = i + 1;
    }
    None
}

/// The same items in the opposite order.
pub fn reversed<T>(v: Vec<T>) -> (r: Vec<T>)
    ensures
        r@.len() == v@.len(),
        forall|j: int| 0 <= j < v@.len() ==> r@[j] == v@[v@.len() - 1 - j],
{
    let ghost all = v@;
    let mut v = v;
    let mut r: Vec<T> = Vec::new();
    while v.len() > 0
        invariant
            v@.len() + r@.len() == all.len(),
            forall|j: int| 0 <= j < v@.len() ==> v@[j] == all[j],
            forall|j: int| 0 <= j < r@.len() ==> r@[j] == all[all.len() - 1 - j],
        decreases v.len(),
    {
        let x = v.pop().unwrap();
        r.push(x);
    }
    r
}

/// Removes every entry under `key`, keeping the order of the others.
pub fn remove_key(entries: Vec<(String, Json)>, key: &str) -> (r: Vec<(String, Json)>)
    ensures
        r@ == without_key(entries@, key@),
{
    let ghost all = entries@;
    let mut rev = reversed(entries);
    let mut out: Vec<(String, Json)> = Vec::new();
    while rev.len() > 0
        invariant
            rev@.len() <= all.len(),
            forall|j: int| 0 <= j < rev@.len() ==> rev@[j] == all[all.len() - 1 - j],
            out@ == all.take(all.len() - rev@.len()).filter_map(keep_other(key@)),
        decreases rev.len(),
    {
        let ghost k = all.len() - rev@.len();
        let e = rev.pop().unwrap();
        proof {
            all.lemma_filter_map_take_succ(keep_other(key@), k);
        }
        if !crate::text::str_eq(e.0.as_str(), key) {
            out.push(e);
        }
    }
    assert(all.take(all.len() as int) == all);
    out
}

} // verus!
