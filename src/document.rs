use vstd::prelude::*;
use crate::json::{Json, reversed};
use crate::object_id::{
    hex_text, is_lower_hex_digit, is_object_id_text, lemma_lower_text_round_trip, object_id_hex,
    object_id_of, parse_object_id,
};
use crate::text::str_eq;

verus! {

/// The field under which a document keeps its identifier.
pub const PRIMARY_KEY: &'static str = "_id";

/// A field of a document as the document engine holds it.
#[derive(Debug)]
pub enum Native {
    /// A native identifier: twelve bytes.
    Id([u8; 12]),
    /// Any other value, which the engine stores as the wire gives it.
    Value(Json),
}

/// A document of the document engine, its fields in order.
#[derive(Debug)]
pub struct Document {
    pub entries: Vec<(String, Native)>,
}

/// Whether a wire entry is an identifier field holding a well-formed token.
pub open spec fn is_id_entry(e: (String, Json)) -> bool {
    &&& e.0@ == PRIMARY_KEY@
    &&& e.1 is Str
    &&& is_object_id_text(e.1->Str_0@)
}

/// Whether `n` is the native form of the wire entry `e`: a well-formed token under the
/// identifier field becomes a native identifier, everything else is kept.
pub open spec fn native_entry(e: (String, Json), n: (String, Native)) -> bool {
    &&& n.0 == e.0
    &&& if is_id_entry(e) {
        n.1 is Id && n.1->Id_0@ == object_id_of(e.1->Str_0@)
    } else {
        n.1 == Native::Value(e.1)
    }
}

/// Whether `w` is the wire form of the native entry `n`: an identifier becomes its text.
pub open spec fn wire_entry(n: (String, Native), w: (String, Json)) -> bool {
    &&& w.0 == n.0
    &&& match n.1 {
        Native::Id(b) => w.1 is Str && w.1->Str_0@ == hex_text(b@),
        Native::Value(v) => w.1 == v,
    }
}

/// Whether `d` is, entry by entry, the native form of `x`.
pub open spec fn native_entries(x: Seq<(String, Json)>, d: Seq<(String, Native)>) -> bool {
    &&& d.len() == x.len()
    &&& forall|i: int| 0 <= i < x.len() ==> native_entry(#[trigger] x[i], d[i])
}

/// Whether `w` is, entry by entry, the wire form of `d`.
pub open spec fn wire_entries(d: Seq<(String, Native)>, w: Seq<(String, Json)>) -> bool {
    &&& w.len() == d.len()
    &&& forall|i: int| 0 <= i < d.len() ==> wire_entry(#[trigger] d[i], w[i])
}

/// Converts one wire entry to its native form.
fn native_of_entry(e: (String, Json)) -> (r: (String, Native))
    ensures
        native_entry(e, r),
{
    let (k, v) = e;
    if str_eq(k.as_str(), PRIMARY_KEY) {
        if let Json::Str(s) = &v {
            if let Some(b) = parse_object_id(s.as_str()) {
                return (k, Native::Id(b));
            }
        }
    }
    (k, Native::Value(v))
}

/// Converts a wire item to a document. Only an object is a document; a token under the
/// identifier field becomes a native identifier, and a malformed one stays as it is.
pub fn to_native(item: Json) -> (r: Option<Document>)
    ensures
        r is Some <==> item is Object,
        r is Some ==> native_entries(item->Object_0@, r->Some_0.entries@),
{
    match item {
        Json::Object(entries) => {
            let ghost all = entries@;
            let mut rev = reversed(entries);
            let mut out: Vec<(String, Native)> = Vec::new();
            while rev.len() > 0
                invariant
                    rev@.len() <= all.len(),
                    forall|j: int| 0 <= j < rev@.len() ==> rev@[j] == all[all.len() - 1 - j],
                    out@.len() == all.len() - rev@.len(),
                    forall|j: int| 0 <= j < out@.len() ==> native_entry(#[trigger] all[j], out@[j]),
                decreases rev.len(),
            {
                let e = rev.pop().unwrap();
                out.push(native_of_entry(e));
            }
            Some(Document { entries: out })
        },
        _ => None,
    }
}

/// Converts a document back to a wire object; a native identifier becomes its token.
pub fn to_wire(doc: Document) -> (r: Json)
    ensures
        r is Object,
        wire_entries(doc.entries@, r->Object_0@),
{
    let ghost all = doc.entries@;
    let mut rev = reversed(doc.entries);
    let mut out: Vec<(String, Json)> = Vec::new();
    while rev.len() > 0
        invariant
            rev@.len() <= all.len(),
            forall|j: int| 0 <= j < rev@.len() ==> rev@[j] == all[all.len() - 1 - j],
            out@.len() == all.len() - rev@.len(),
            forall|j: int| 0 <= j < out@.len() ==> wire_entry(#[trigger] all[j], out@[j]),
        decreases rev.len(),
    {
        let (k, v) = rev.pop().unwrap();
        match v {
            Native::Id(b) => out.push((k, Json::Str(object_id_hex(b)))),
            Native::Value(v) => out.push((k, v)),
        }
    }
    Json::Object(out)
}

/// Whether every well-formed token under the identifier field is written in lower case.
pub open spec fn lower_case_ids(x: Seq<(String, Json)>) -> bool {
    forall|i: int|
        0 <= i < x.len() && is_id_entry(#[trigger] x[i]) ==> forall|c: int|
            0 <= c < x[i].1->Str_0@.len() ==> is_lower_hex_digit(#[trigger] x[i].1->Str_0@[c])
}

/// Whether two entry sequences agree: same keys, and each value the same or a string of
/// the same text.
pub open spec fn same_entries(a: Seq<(String, Json)>, b: Seq<(String, Json)>) -> bool {
    &&& a.len() == b.len()
    &&& forall|i: int|
        0 <= i < a.len() ==> {
            &&& (#[trigger] a[i]).0 == b[i].0
            &&& (a[i].1 == b[i].1 || (a[i].1 is Str && b[i].1 is Str && a[i].1->Str_0@
                == b[i].1->Str_0@))
        }
}

/// Converting a wire object to a document and back gives the object again, provided that
/// its identifier tokens are in lower case (the engine writes them so).
pub proof fn lemma_document_round_trip(
    x: Seq<(String, Json)>,
    d: Seq<(String, Native)>,
    w: Seq<(String, Json)>,
)
    requires
        lower_case_ids(x),
        native_entries(x, d),
        wire_entries(d, w),
    ensures
        same_entries(x, w),
{
    assert forall|i: int| 0 <= i < x.len() implies {
        &&& (#[trigger] x[i]).0 == w[i].0
        &&& (x[i].1 == w[i].1 || (x[i].1 is Str && w[i].1 is Str && x[i].1->Str_0@
            == w[i].1->Str_0@))
    } by {
        assert(native_entry(x[i], d[i]));
        assert(wire_entry(d[i], w[i]));
        if is_id_entry(x[i]) {
            let s = x[i].1->Str_0@;
            assert forall|c: int| 0 <= c < s.len() implies is_lower_hex_digit(#[trigger] s[c]) by {}
            lemma_lower_text_round_trip(s);
        }
    }
}

} // verus!
