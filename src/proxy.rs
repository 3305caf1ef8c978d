use vstd::prelude::*;
use crate::text::str_eq;

verus! {

/// The address that the proxy forwards to: the target, then `?` and the query if the
/// request had one.
pub fn proxy_url(url: String, query: Option<&str>) -> (r: String)
    ensures
        r@ == match query {
            Some(q) => url@ + "?"@ + q@,
            None => url@,
        },
{
    match query {
        Some(q) => {
            let mut r = url;
            r.append("?");
            r.append(q);
            r
        },
        None => url,
    }
}

/// The headers, by lower-case name, that the proxy does not pass on: those that
/// describe the connection to the proxy rather than the request itself.
pub open spec fn dropped_header(name: Seq<char>) -> bool {
    name == "user-agent"@ || name == "host"@ || name == "content-length"@ || name
        == "connection"@ || name == "referer"@ || name == "proxy-authenticate"@ || name
        == "proxy-authorization"@ || name == "te"@ || name == "trailer"@ || name
        == "transfer-encoding"@ || name == "upgrade"@
}

/// Whether the proxy drops a header, given its lower-case name.
pub fn is_dropped_header(name: &str) -> (r: bool)
    ensures
        r == dropped_header(name@),
{
    str_eq(name, "user-agent") || str_eq(name, "host") || str_eq(name, "content-length")
        || str_eq(name, "connection") || str_eq(name, "referer") || str_eq(
        name,
        "proxy-authenticate",
    ) || str_eq(name, "proxy-authorization") || str_eq(name, "te") || str_eq(name, "trailer")
        || str_eq(name, "transfer-encoding") || str_eq(name, "upgrade")
}

} // verus!
