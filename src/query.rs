use vstd::prelude::*;
use crate::document::{Document, to_native, native_entries};
use crate::json::Json;

verus! {

/// Which page of a result to return. A page counts from 1; a missing or zero limit asks
/// for every matching item.
#[derive(Clone, Copy, Debug, PartialEq, Eq, Structural)]
pub struct PaginationParams {
    pub page: Option<u32>,
    pub limit: Option<u32>,
}

/// A `find` request in engine-agnostic form.
#[derive(Debug)]
pub struct QueryItemsParams {
    pub collection: String,
    pub pagination: Option<PaginationParams>,
    pub filters: Option<Json>,
    pub sort: Option<Json>,
}

/// The options that the document engine applies to a query.
#[derive(Debug)]
pub struct FindOptions {
    pub skip: Option<u64>,
    pub limit: Option<i64>,
    pub sort: Option<Document>,
}

/// A query in the document engine's form.
#[derive(Debug)]
pub struct FindQuery {
    pub filter: Document,
    pub options: Option<FindOptions>,
}

/// Whether a pagination request is well formed: a page, when given, is at least 1.
pub open spec fn pagination_ok(p: Option<PaginationParams>) -> bool {
    match p {
        Some(p) => match p.page {
            Some(n) => n >= 1,
            None => true,
        },
        None => true,
    }
}

/// Whether a request asks for a window: it names a limit.
pub open spec fn is_paged(p: Option<PaginationParams>) -> bool {
    p is Some && p->Some_0.limit is Some
}

/// The page asked for, 1 by default.
pub open spec fn page_of(p: PaginationParams) -> int {
    match p.page {
        Some(n) => n as int,
        None => 1,
    }
}

/// The number of items that a paged request skips: `(page - 1) * limit`.
pub open spec fn skip_of(p: PaginationParams) -> int {
    (page_of(p) - 1) * (p.limit->Some_0 as int)
}

/// Whether `d` is the document form of `v`, where `v` is an object.
pub open spec fn document_of(v: Json, d: Document) -> bool {
    v is Object && native_entries(v->Object_0@, d.entries@)
}

/// Whether `d` is the document form of an optional value: absent, or not an object,
/// gives none.
pub open spec fn optional_document(v: Option<Json>, d: Option<Document>) -> bool {
    match v {
        Some(v) => if v is Object {
            d is Some && document_of(v, d->Some_0)
        } else {
            d is None
        },
        None => d is None,
    }
}

/// Translates a request into the document engine's query. A filter or sort that is not
/// an object counts as absent. A paged request skips `(page - 1) * limit` items and
/// takes `limit`; otherwise only a sort, if any, is attached.
pub fn translate(filters: Option<Json>, sort: Option<Json>, pagination: Option<PaginationParams>) -> (r: FindQuery)
    requires
        pagination_ok(pagination),
    ensures
        match filters {
            Some(f) => if f is Object {
                document_of(f, r.filter)
            } else {
                r.filter.entries@.len() == 0
            },
            None => r.filter.entries@.len() == 0,
        },
        is_paged(pagination) ==> {
            let p = pagination->Some_0;
            &&& r.options is Some
            &&& r.options->Some_0.skip == Some(skip_of(p) as u64)
            &&& r.options->Some_0.limit == Some(p.limit->Some_0 as i64)
            &&& optional_document(sort, r.options->Some_0.sort)
        },
        !is_paged(pagination) ==> {
            &&& (r.options is Some <==> (sort is Some && sort->Some_0 is Object))
            &&& r.options is Some ==> {
                &&& r.options->Some_0.skip is None
                &&& r.options->Some_0.limit is None
                &&& optional_document(sort, r.options->Some_0.sort)
            }
        },
{
    let sort = match sort {
        Some(s) => to_native(s),
        None => None,
    };
    let options = match pagination {
        Some(PaginationParams { page, limit: Some(limit) }) => {
            let page: u32 = match page {
                Some(n) => n,
                None => 1,
            };
            let a: u64 = (page - 1) as u64;
            let b: u64 = limit as u64;
            assert(a * b <= 0xffff_ffff * 0xffff_ffff) by (nonlinear_arith)
                requires
                    a <= 0xffff_ffff,
                    b <= 0xffff_ffff,
            ;
            let skip: u64 = a * b;
            Some(FindOptions { skip: Some(skip), limit: Some(limit as i64), sort })
        },
        _ => match sort {
            Some(s) => Some(FindOptions { skip: None, limit: None, sort: Some(s) }),
            None => None,
        },
    };
    let filter = match filters {
        Some(f) => match to_native(f) {
            Some(d) => d,
            None => Document { entries: Vec::new() },
        },
        None => Document { entries: Vec::new() },
    };
    FindQuery { filter, options }
}

/// What the engine returns for a query whose matches, in sort order, are `s`: it skips
/// `skip` items, then takes `limit` of them, a limit of zero taking all.
pub open spec fn engine_window<T>(s: Seq<T>, skip: Option<u64>, limit: Option<i64>) -> Seq<T> {
    let k = match skip {
        Some(k) => if k as int <= s.len() {
            k as int
        } else {
            s.len() as int
        },
        None => 0,
    };
    let rest = s.subrange(k, s.len() as int);
    match limit {
        Some(l) => if 0 < l && l < rest.len() {
            rest.take(l as int)
        } else {
            rest
        },
        None => rest,
    }
}

/// The smaller of two integers.
pub open spec fn min(a: int, b: int) -> int {
    if a <= b {
        a
    } else {
        b
    }
}

/// Paging: with a limit, page `n` of the sorted matches is items `(n-1)*limit + 1` to
/// `n*limit` (as far as there are any); with a zero limit or no pagination, every match.
pub proof fn lemma_page_window<T>(s: Seq<T>, p: Option<PaginationParams>)
    requires
        pagination_ok(p),
    ensures
        is_paged(p) && p->Some_0.limit->Some_0 > 0 ==> engine_window(
            s,
            Some(skip_of(p->Some_0) as u64),
            Some(p->Some_0.limit->Some_0 as i64),
        ) == s.subrange(
            min(skip_of(p->Some_0), s.len() as int),
            min(skip_of(p->Some_0) + p->Some_0.limit->Some_0, s.len() as int),
        ),
        is_paged(p) && p->Some_0.limit->Some_0 == 0 ==> engine_window(
            s,
            Some(skip_of(p->Some_0) as u64),
            Some(0),
        ) == s,
        !is_paged(p) ==> engine_window(s, None, None) == s,
{
    if is_paged(p) {
        let q = p->Some_0;
        let l = q.limit->Some_0 as int;
        let page = page_of(q);
        assert(0 <= skip_of(q) <= 0xffff_ffff * 0xffff_ffff) by (nonlinear_arith)
            requires
                1 <= page <= 0xffff_ffff,
                0 <= l <= 0xffff_ffff,
                skip_of(q) == (page - 1) * l,
        ;
        if l == 0 {
            assert(skip_of(q) == 0) by (nonlinear_arith)
                requires
                    l == 0,
                    skip_of(q) == (page - 1) * l,
            ;
            assert(s.subrange(0, s.len() as int) == s);
        } else {
            let k = min(skip_of(q), s.len() as int);
            let rest = s.subrange(k, s.len() as int);
            if l < rest.len() {
                assert(rest.take(l) == s.subrange(k, k + l));
            } else {
                assert(rest == s.subrange(k, min(skip_of(q) + l, s.len() as int)));
            }
        }
    } else {
        assert(s.subrange(0, s.len() as int) == s);
    }
}

} // verus!
