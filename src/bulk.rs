use vstd::prelude::*;
use crate::document::{PRIMARY_KEY, native_entries};
use crate::json::{Json, lookup, without_key, get, remove_key, reversed};
use crate::object_id::{hex_text, is_object_id_text, object_id_hex, object_id_of, parse_object_id, lemma_hex_text_parses};

verus! {

/// The items of a bulk request against one collection.
#[derive(Debug)]
pub struct MutateItemsParams {
    pub collection: String,
    pub data: Vec<Json>,
}

/// The positions at which `flags` holds, in increasing order.
pub open spec fn positions(flags: Seq<bool>) -> Seq<int>
    decreases flags.len(),
{
    if flags.len() == 0 {
        Seq::empty()
    } else if flags.last() {
        positions(flags.drop_last()).push(flags.len() - 1)
    } else {
        positions(flags.drop_last())
    }
}

/// Each position is in range, flagged, and they increase.
pub proof fn lemma_positions(flags: Seq<bool>)
    ensures
        forall|j: int|
            0 <= j < positions(flags).len() ==> 0 <= #[trigger] positions(flags)[j] < flags.len()
                && flags[positions(flags)[j]],
        forall|j: int, k: int|
            0 <= j < k < positions(flags).len() ==> #[trigger] positions(flags)[j]
                < #[trigger] positions(flags)[k],
    decreases flags.len(),
{
    if flags.len() > 0 {
        let prev = flags.drop_last();
        lemma_positions(prev);
        let p = positions(flags);
        let q = positions(prev);
        assert forall|j: int| 0 <= j < p.len() implies 0 <= #[trigger] p[j] < flags.len()
            && flags[p[j]] by {
            if j < q.len() {
                assert(p[j] == q[j]);
                assert(flags[q[j]] == prev[q[j]]);
            }
        }
        assert forall|j: int, k: int| 0 <= j < k < p.len() implies #[trigger] p[j]
            < #[trigger] p[k] by {
            if k < q.len() {
                assert(p[j] == q[j] && p[k] == q[k]);
            } else {
                assert(p[j] == q[j]);
                assert(q[j] < prev.len());
            }
        }
    }
}

/// The token under the identifier field of an object, if there is a well-formed one.
pub open spec fn id_token(entries: Seq<(String, Json)>) -> Option<Seq<char>> {
    match lookup(entries, PRIMARY_KEY@) {
        Some(Json::Str(s)) => if is_object_id_text(s@) {
            Some(s@)
        } else {
            None
        },
        _ => None,
    }
}

/// Whether an item is an object with a well-formed identifier.
pub open spec fn has_id(item: Json) -> bool {
    item is Object && id_token(item->Object_0@) is Some
}

/// The identifier bytes of an item that has one.
pub open spec fn id_bytes(item: Json) -> Seq<u8> {
    object_id_of(id_token(item->Object_0@)->Some_0)
}

/// Whether `out` is `fields` with the identifier field appended, holding the text of `id`.
pub open spec fn with_id(fields: Seq<(String, Json)>, id: Seq<u8>, out: Json) -> bool {
    &&& out is Object
    &&& out->Object_0@.len() == fields.len() + 1
    &&& out->Object_0@.take(fields.len() as int) == fields
    &&& out->Object_0@.last().0@ == PRIMARY_KEY@
    &&& out->Object_0@.last().1 is Str
    &&& out->Object_0@.last().1->Str_0@ == hex_text(id)
}

/// Reads the identifier of an object's entries.
fn find_id(entries: &Vec<(String, Json)>) -> (r: Option<[u8; 12]>)
    ensures
        r is Some <==> id_token(entries@) is Some,
        r is Some ==> r->Some_0@ == object_id_of(id_token(entries@)->Some_0),
{
    match get(entries, PRIMARY_KEY) {
        Some(v) => match v.as_str() {
            Some(s) => parse_object_id(s),
            None => None,
        },
        None => None,
    }
}

/// Appends the identifier field, holding the text of `id`.
fn attach_id(fields: Vec<(String, Json)>, id: [u8; 12]) -> (r: Json)
    ensures
        with_id(fields@, id@, r),
{
    let mut fields = fields;
    let ghost before = fields@;
    fields.push((String::from_str(PRIMARY_KEY), Json::Str(object_id_hex(id))));
    assert(fields@.take(before.len() as int) == before);
    Json::Object(fields)
}

// ---- add ----

/// Whether `planned` holds, for each item, the fields to insert: an object loses its
/// identifier field, anything else is dropped.
pub open spec fn add_planned(items: Seq<Json>, planned: Seq<Option<Vec<(String, Json)>>>) -> bool {
    &&& planned.len() == items.len()
    &&& forall|i: int|
        0 <= i < items.len() ==> {
            &&& ((#[trigger] planned[i]) is Some <==> items[i] is Object)
            &&& planned[i] is Some ==> planned[i]->Some_0@ == without_key(
                items[i]->Object_0@,
                PRIMARY_KEY@,
            )
        }
}

/// Prepares the items of an `add`: the identifier that a caller supplies is never kept.
pub fn plan_add(items: Vec<Json>) -> (r: Vec<Option<Vec<(String, Json)>>>)
    ensures
        add_planned(items@, r@),
{
    let ghost all = items@;
    let mut rev = reversed(items);
    let mut out: Vec<Option<Vec<(String, Json)>>> = Vec::new();
    while rev.len() > 0
        invariant
            rev@.len() <= all.len(),
            forall|j: int| 0 <= j < rev@.len() ==> rev@[j] == all[all.len() - 1 - j],
            out@.len() == all.len() - rev@.len(),
            forall|i: int|
                0 <= i < out@.len() ==> {
                    &&& ((#[trigger] out@[i]) is Some <==> all[i] is Object)
                    &&& out@[i] is Some ==> out@[i]->Some_0@ == without_key(
                        all[i]->Object_0@,
                        PRIMARY_KEY@,
                    )
                },
        decreases rev.len(),
    {
        match rev.pop().unwrap() {
            Json::Object(entries) => out.push(Some(remove_key(entries, PRIMARY_KEY))),
            _ => out.push(None),
        }
    }
    out
}

/// Which planned items the engine took, and gave an identifier.
pub open spec fn add_flags(planned: Seq<Option<Vec<(String, Json)>>>, ids: Seq<Option<[u8; 12]>>) -> Seq<bool> {
    Seq::new(planned.len(), |i: int| planned[i] is Some && ids[i] is Some)
}

/// Whether `out` holds, in order, each inserted item with the identifier that the engine
/// gave it; the others are left out.
pub open spec fn add_finished(
    planned: Seq<Option<Vec<(String, Json)>>>,
    ids: Seq<Option<[u8; 12]>>,
    out: Seq<Json>,
) -> bool {
    let p = positions(add_flags(planned, ids));
    &&& out.len() == p.len()
    &&& forall|j: int|
        0 <= j < out.len() ==> with_id(planned[p[j]]->Some_0@, ids[p[j]]->Some_0@, #[trigger] out[j])
}

/// Completes an `add` from what the engine reported: `ids[i]` is the identifier that the
/// engine assigned to the i-th planned item, or nothing where it was not inserted.
pub fn finish_add(planned: Vec<Option<Vec<(String, Json)>>>, ids: Vec<Option<[u8; 12]>>) -> (r: Vec<Json>)
    requires
        planned@.len() == ids@.len(),
    ensures
        add_finished(planned@, ids@, r@),
{
    let ghost p_all = planned@;
    let ghost i_all = ids@;
    let ghost flags = add_flags(p_all, i_all);
    let mut prev = reversed(planned);
    let mut irev = reversed(ids);
    let mut out: Vec<Json> = Vec::new();
    while prev.len() > 0
        invariant
            prev@.len() == irev@.len(),
            prev@.len() <= p_all.len(),
            p_all.len() == i_all.len(),
            flags == add_flags(p_all, i_all),
            forall|j: int| 0 <= j < prev@.len() ==> prev@[j] == p_all[p_all.len() - 1 - j],
            forall|j: int| 0 <= j < irev@.len() ==> irev@[j] == i_all[i_all.len() - 1 - j],
            ({
                let p = positions(flags.take(p_all.len() - prev@.len()));
                &&& out@.len() == p.len()
                &&& forall|j: int|
                    0 <= j < out@.len() ==> with_id(
                        p_all[p[j]]->Some_0@,
                        i_all[p[j]]->Some_0@,
                        #[trigger] out@[j],
                    )
            }),
        decreases prev.len(),
    {
        let ghost k = p_all.len() - prev@.len();
        assert(flags.take(k + 1).drop_last() == flags.take(k));
        let fields = prev.pop().unwrap();
        let id = irev.pop().unwrap();
        match (fields, id) {
            (Some(fields), Some(id)) => {
                out.push(attach_id(fields, id));
            },
            _ => {},
        }
    }
    assert(flags.take(p_all.len() as int) == flags);
    out
}

// ---- update ----

/// Whether `planned` holds, for each item, its identifier and the fields to set, or
/// nothing where the item is not an object with a well-formed identifier.
pub open spec fn update_planned(items: Seq<Json>, planned: Seq<Option<([u8; 12], Vec<(String, Json)>)>>) -> bool {
    &&& planned.len() == items.len()
    &&& forall|i: int|
        0 <= i < items.len() ==> {
            &&& ((#[trigger] planned[i]) is Some <==> has_id(items[i]))
            &&& planned[i] is Some ==> planned[i]->Some_0.0@ == id_bytes(items[i])
                && planned[i]->Some_0.1@ == without_key(items[i]->Object_0@, PRIMARY_KEY@)
        }
}

/// Prepares the items of an `update`: each needs a well-formed identifier, which is
/// taken out of the fields to set.
pub fn plan_update(items: Vec<Json>) -> (r: Vec<Option<([u8; 12], Vec<(String, Json)>)>>)
    ensures
        update_planned(items@, r@),
{
    let ghost all = items@;
    let mut rev = reversed(items);
    let mut out: Vec<Option<([u8; 12], Vec<(String, Json)>)>> = Vec::new();
    while rev.len() > 0
        invariant
            rev@.len() <= all.len(),
            forall|j: int| 0 <= j < rev@.len() ==> rev@[j] == all[all.len() - 1 - j],
            out@.len() == all.len() - rev@.len(),
            forall|i: int|
                0 <= i < out@.len() ==> {
                    &&& ((#[trigger] out@[i]) is Some <==> has_id(all[i]))
                    &&& out@[i] is Some ==> out@[i]->Some_0.0@ == id_bytes(all[i])
                        && out@[i]->Some_0.1@ == without_key(all[i]->Object_0@, PRIMARY_KEY@)
                },
        decreases rev.len(),
    {
        match rev.pop().unwrap() {
            Json::Object(entries) => match find_id(&entries) {
                Some(id) => out.push(Some((id, remove_key(entries, PRIMARY_KEY)))),
                None => out.push(None),
            },
            _ => out.push(None),
        }
    }
    out
}

/// Which planned updates the engine applied with a change.
pub open spec fn update_flags(planned: Seq<Option<([u8; 12], Vec<(String, Json)>)>>, modified: Seq<bool>) -> Seq<bool> {
    Seq::new(planned.len(), |i: int| planned[i] is Some && modified[i])
}

/// Whether `out` holds, in order, each changed item with its identifier re-attached.
pub open spec fn update_finished(
    planned: Seq<Option<([u8; 12], Vec<(String, Json)>)>>,
    modified: Seq<bool>,
    out: Seq<Json>,
) -> bool {
    let p = positions(update_flags(planned, modified));
    &&& out.len() == p.len()
    &&& forall|j: int|
        0 <= j < out.len() ==> with_id(
            planned[p[j]]->Some_0.1@,
            planned[p[j]]->Some_0.0@,
            #[trigger] out[j],
        )
}

/// Completes an `update`: `modified[i]` tells whether the engine changed the i-th planned
/// item. Updates that changed nothing are left out.
pub fn finish_update(planned: Vec<Option<([u8; 12], Vec<(String, Json)>)>>, modified: Vec<bool>) -> (r: Vec<Json>)
    requires
        planned@.len() == modified@.len(),
    ensures
        update_finished(planned@, modified@, r@),
{
    let ghost p_all = planned@;
    let ghost m_all = modified@;
    let ghost flags = update_flags(p_all, m_all);
    let mut prev = reversed(planned);
    let mut mrev = reversed(modified);
    let mut out: Vec<Json> = Vec::new();
    while prev.len() > 0
        invariant
            prev@.len() == mrev@.len(),
            prev@.len() <= p_all.len(),
            p_all.len() == m_all.len(),
            flags == update_flags(p_all, m_all),
            forall|j: int| 0 <= j < prev@.len() ==> prev@[j] == p_all[p_all.len() - 1 - j],
            forall|j: int| 0 <= j < mrev@.len() ==> mrev@[j] == m_all[m_all.len() - 1 - j],
            ({
                let p = positions(flags.take(p_all.len() - prev@.len()));
                &&& out@.len() == p.len()
                &&& forall|j: int|
                    0 <= j < out@.len() ==> with_id(
                        p_all[p[j]]->Some_0.1@,
                        p_all[p[j]]->Some_0.0@,
                        #[trigger] out@[j],
                    )
            }),
        decreases prev.len(),
    {
        let ghost k = p_all.len() - prev@.len();
        assert(flags.take(k + 1).drop_last() == flags.take(k));
        let item = prev.pop().unwrap();
        let changed = mrev.pop().unwrap();
        match item {
            Some((id, fields)) => {
                if changed {
                    out.push(attach_id(fields, id));
                }
            },
            None => {},
        }
    }
    assert(flags.take(p_all.len() as int) == flags);
    out
}

// ---- remove ----

/// Whether `planned` holds, for each item, its identifier and the item to hand back, or
/// nothing where the item is not an object with a well-formed identifier.
pub open spec fn remove_planned(items: Seq<Json>, planned: Seq<Option<([u8; 12], Json)>>) -> bool {
    &&& planned.len() == items.len()
    &&& forall|i: int|
        0 <= i < items.len() ==> {
            &&& ((#[trigger] planned[i]) is Some <==> has_id(items[i]))
            &&& planned[i] is Some ==> planned[i]->Some_0.0@ == id_bytes(items[i])
                && planned[i]->Some_0.1 == items[i]
        }
}

/// Prepares the items of a `remove`: each needs a well-formed identifier; the item itself
/// is kept, unchanged, to be handed back.
pub fn plan_remove(items: Vec<Json>) -> (r: Vec<Option<([u8; 12], Json)>>)
    ensures
        remove_planned(items@, r@),
{
    let ghost all = items@;
    let mut rev = reversed(items);
    let mut out: Vec<Option<([u8; 12], Json)>> = Vec::new();
    while rev.len() > 0
        invariant
            rev@.len() <= all.len(),
            forall|j: int| 0 <= j < rev@.len() ==> rev@[j] == all[all.len() - 1 - j],
            out@.len() == all.len() - rev@.len(),
            forall|i: int|
                0 <= i < out@.len() ==> {
                    &&& ((#[trigger] out@[i]) is Some <==> has_id(all[i]))
                    &&& out@[i] is Some ==> out@[i]->Some_0.0@ == id_bytes(all[i])
                        && out@[i]->Some_0.1 == all[i]
                },
        decreases rev.len(),
    {
        let item = rev.pop().unwrap();
        let id = match &item {
            Json::Object(entries) => find_id(entries),
            _ => None,
        };
        match id {
            Some(id) => out.push(Some((id, item))),
            None => out.push(None),
        }
    }
    out
}

/// Which planned removals the engine carried out.
pub open spec fn remove_flags(planned: Seq<Option<([u8; 12], Json)>>, deleted: Seq<bool>) -> Seq<bool> {
    Seq::new(planned.len(), |i: int| planned[i] is Some && deleted[i])
}

/// Whether `out` holds, in order, each item that the engine deleted.
pub open spec fn remove_finished(planned: Seq<Option<([u8; 12], Json)>>, deleted: Seq<bool>, out: Seq<Json>) -> bool {
    let p = positions(remove_flags(planned, deleted));
    &&& out.len() == p.len()
    &&& forall|j: int| 0 <= j < out.len() ==> #[trigger] out[j] == planned[p[j]]->Some_0.1
}

/// Completes a `remove`: `deleted[i]` tells whether the engine deleted a record for the
/// i-th planned item. Items that deleted nothing are left out.
pub fn finish_remove(planned: Vec<Option<([u8; 12], Json)>>, deleted: Vec<bool>) -> (r: Vec<Json>)
    requires
        planned@.len() == deleted@.len(),
    ensures
        remove_finished(planned@, deleted@, r@),
{
    let ghost p_all = planned@;
    let ghost d_all = deleted@;
    let ghost flags = remove_flags(p_all, d_all);
    let mut prev = reversed(planned);
    let mut drev = reversed(deleted);
    let mut out: Vec<Json> = Vec::new();
    while prev.len() > 0
        invariant
            prev@.len() == drev@.len(),
            prev@.len() <= p_all.len(),
            p_all.len() == d_all.len(),
            flags == remove_flags(p_all, d_all),
            forall|j: int| 0 <= j < prev@.len() ==> prev@[j] == p_all[p_all.len() - 1 - j],
            forall|j: int| 0 <= j < drev@.len() ==> drev@[j] == d_all[d_all.len() - 1 - j],
            ({
                let p = positions(flags.take(p_all.len() - prev@.len()));
                &&& out@.len() == p.len()
                &&& forall|j: int| 0 <= j < out@.len() ==> #[trigger] out@[j] == p_all[p[j]]->Some_0.1
            }),
        decreases prev.len(),
    {
        let ghost k = p_all.len() - prev@.len();
        assert(flags.take(k + 1).drop_last() == flags.take(k));
        let item = prev.pop().unwrap();
        let gone = drev.pop().unwrap();
        match item {
            Some((_id, item)) => {
                if gone {
                    out.push(item);
                }
            },
            None => {},
        }
    }
    assert(flags.take(p_all.len() as int) == flags);
    out
}

// ---- guarantees over the bulk operations ----

/// No entry that `without_key` keeps stands under the removed key.
pub proof fn lemma_without_key(s: Seq<(String, Json)>, key: Seq<char>)
    ensures
        forall|m: int| 0 <= m < without_key(s, key).len() ==> (#[trigger] without_key(s, key)[m]).0@ != key,
    decreases s.len(),
{
    if s.len() > 0 {
        lemma_without_key(s.drop_last(), key);
        let a = without_key(s.drop_last(), key);
        assert forall|m: int| 0 <= m < without_key(s, key).len() implies (#[trigger] without_key(s, key)[m]).0@ != key by {
            if m < a.len() {
                assert(without_key(s, key)[m] == a[m]);
            }
        }
    }
}

/// `add` never keeps an identifier that the caller supplied: every item that it returns
/// came from an object, its only identifier field is the last one, and that field holds
/// the well-formed token of the identifier that the engine assigned.
pub proof fn lemma_add_assigns_identifier(
    items: Seq<Json>,
    planned: Seq<Option<Vec<(String, Json)>>>,
    ids: Seq<Option<[u8; 12]>>,
    out: Seq<Json>,
)
    requires
        add_planned(items, planned),
        ids.len() == planned.len(),
        add_finished(planned, ids, out),
    ensures
        forall|j: int|
            0 <= j < out.len() ==> {
                let i = positions(add_flags(planned, ids))[j];
                let o = (#[trigger] out[j])->Object_0@;
                &&& 0 <= i < items.len()
                &&& items[i] is Object
                &&& ids[i] is Some
                &&& forall|m: int| 0 <= m < o.len() - 1 ==> o[m].0@ != PRIMARY_KEY@
                &&& o.last().0@ == PRIMARY_KEY@
                &&& o.last().1->Str_0@ == hex_text(ids[i]->Some_0@)
                &&& is_object_id_text(o.last().1->Str_0@)
            },
{
    let flags = add_flags(planned, ids);
    lemma_positions(flags);
    assert forall|j: int| 0 <= j < out.len() implies {
        let i = positions(add_flags(planned, ids))[j];
        let o = (#[trigger] out[j])->Object_0@;
        &&& 0 <= i < items.len()
        &&& items[i] is Object
        &&& ids[i] is Some
        &&& forall|m: int| 0 <= m < o.len() - 1 ==> o[m].0@ != PRIMARY_KEY@
        &&& o.last().0@ == PRIMARY_KEY@
        &&& o.last().1->Str_0@ == hex_text(ids[i]->Some_0@)
        &&& is_object_id_text(o.last().1->Str_0@)
    } by {
        let i = positions(flags)[j];
        assert(flags[i]);
        let fields = planned[i]->Some_0@;
        let o = out[j]->Object_0@;
        lemma_without_key(items[i]->Object_0@, PRIMARY_KEY@);
        assert forall|m: int| 0 <= m < o.len() - 1 implies o[m].0@ != PRIMARY_KEY@ by {
            assert(o[m] == o.take(fields.len() as int)[m]);
        }
        lemma_hex_text_parses(ids[i]->Some_0@);
    }
}

/// `update` leaves out every item without a well-formed identifier: each item that it
/// returns came from an object that had one, and carries that identifier.
pub proof fn lemma_update_needs_identifier(
    items: Seq<Json>,
    planned: Seq<Option<([u8; 12], Vec<(String, Json)>)>>,
    modified: Seq<bool>,
    out: Seq<Json>,
)
    requires
        update_planned(items, planned),
        modified.len() == planned.len(),
        update_finished(planned, modified, out),
    ensures
        forall|j: int|
            0 <= j < out.len() ==> {
                let i = positions(update_flags(planned, modified))[j];
                &&& 0 <= i < items.len()
                &&& has_id(items[i])
                &&& (#[trigger] out[j])->Object_0@.last().1->Str_0@ == hex_text(id_bytes(items[i]))
            },
        forall|i: int| 0 <= i < items.len() && !has_id(#[trigger] items[i]) ==> !positions(
            update_flags(planned, modified),
        ).contains(i),
{
    let flags = update_flags(planned, modified);
    lemma_positions(flags);
    assert forall|j: int| 0 <= j < out.len() implies {
        let i = positions(update_flags(planned, modified))[j];
        &&& 0 <= i < items.len()
        &&& has_id(items[i])
        &&& (#[trigger] out[j])->Object_0@.last().1->Str_0@ == hex_text(id_bytes(items[i]))
    } by {
        let i = positions(flags)[j];
        assert(flags[i]);
    }
    assert forall|i: int| 0 <= i < items.len() && !has_id(#[trigger] items[i]) implies !positions(
        flags,
    ).contains(i) by {
        if positions(flags).contains(i) {
            let j = choose|j: int| 0 <= j < positions(flags).len() && positions(flags)[j] == i;
            assert(flags[positions(flags)[j]]);
        }
    }
}

/// The identifier that `add` returns finds its record again: used under the identifier
/// field of a filter, its text becomes the native identifier with exactly the bytes that
/// the engine assigned.
pub proof fn lemma_returned_identifier_filters(
    b: Seq<u8>,
    x: Seq<(String, Json)>,
    d: Seq<(String, crate::document::Native)>,
    i: int,
)
    requires
        b.len() == 12,
        0 <= i < x.len(),
        x[i].0@ == PRIMARY_KEY@,
        x[i].1 is Str,
        x[i].1->Str_0@ == hex_text(b),
        native_entries(x, d),
    ensures
        d[i].1 is Id,
        d[i].1->Id_0@ == b,
{
    lemma_hex_text_parses(b);
    assert(crate::document::native_entry(x[i], d[i]));
}

/// Where every position is flagged, the positions are all of them, in order.
proof fn lemma_positions_all(flags: Seq<bool>)
    requires
        forall|i: int| 0 <= i < flags.len() ==> flags[i],
    ensures
        positions(flags).len() == flags.len(),
        forall|j: int| 0 <= j < flags.len() ==> #[trigger] positions(flags)[j] == j,
    decreases flags.len(),
{
    if flags.len() > 0 {
        lemma_positions_all(flags.drop_last());
    }
}

/// Removing a key that no entry has changes nothing.
proof fn lemma_without_absent_key(s: Seq<(String, Json)>, key: Seq<char>)
    requires
        forall|m: int| 0 <= m < s.len() ==> (#[trigger] s[m]).0@ != key,
    ensures
        without_key(s, key) == s,
    decreases s.len(),
{
    if s.len() > 0 {
        lemma_without_absent_key(s.drop_last(), key);
        assert(s.drop_last().push(s.last()) == s);
    }
}

/// When every item is an object and the engine assigns every one an identifier, `add`
/// returns one item for each, in order: the item's fields, without any identifier it
/// carried, followed by the assigned identifier. An item without an identifier comes
/// back with exactly its own fields before it.
pub proof fn lemma_add_returns_every_item(
    items: Seq<Json>,
    planned: Seq<Option<Vec<(String, Json)>>>,
    ids: Seq<Option<[u8; 12]>>,
    out: Seq<Json>,
)
    requires
        add_planned(items, planned),
        ids.len() == planned.len(),
        add_finished(planned, ids, out),
        forall|i: int| 0 <= i < items.len() ==> (#[trigger] items[i]) is Object && ids[i] is Some,
    ensures
        out.len() == items.len(),
        forall|k: int|
            0 <= k < out.len() ==> with_id(
                without_key(items[k]->Object_0@, PRIMARY_KEY@),
                ids[k]->Some_0@,
                #[trigger] out[k],
            ),
        forall|k: int|
            0 <= k < out.len() && (forall|m: int|
                0 <= m < items[k]->Object_0@.len() ==> (#[trigger] items[k]->Object_0@[m]).0@
                    != PRIMARY_KEY@) ==> (#[trigger] out[k])->Object_0@.take(
                items[k]->Object_0@.len() as int,
            ) == items[k]->Object_0@,
{
    let flags = add_flags(planned, ids);
    assert forall|i: int| 0 <= i < flags.len() implies flags[i] by {
        assert(items[i] is Object && ids[i] is Some);
    }
    lemma_positions_all(flags);
    assert forall|k: int|
        0 <= k < out.len() && (forall|m: int|
            0 <= m < items[k]->Object_0@.len() ==> (#[trigger] items[k]->Object_0@[m]).0@
                != PRIMARY_KEY@) implies (#[trigger] out[k])->Object_0@.take(
        items[k]->Object_0@.len() as int,
    ) == items[k]->Object_0@ by {
        assert(positions(flags)[k] == k);
        lemma_without_absent_key(items[k]->Object_0@, PRIMARY_KEY@);
    }
    assert forall|k: int| 0 <= k < out.len() implies with_id(
        without_key(items[k]->Object_0@, PRIMARY_KEY@),
        ids[k]->Some_0@,
        #[trigger] out[k],
    ) by {
        assert(positions(flags)[k] == k);
    }
}

} // verus!
