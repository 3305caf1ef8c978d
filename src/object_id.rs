use vstd::prelude::*;

verus! {

/// Whether a character is a hexadecimal digit, in either case.
pub open spec fn is_hex_digit(c: char) -> bool {
    ('0' <= c && c <= '9') || ('a' <= c && c <= 'f') || ('A' <= c && c <= 'F')
}

/// Whether a character is a lower-case hexadecimal digit.
pub open spec fn is_lower_hex_digit(c: char) -> bool {
    ('0' <= c && c <= '9') || ('a' <= c && c <= 'f')
}

/// The value of a hexadecimal digit.
pub open spec fn hex_value(c: char) -> int {
    if '0' <= c && c <= '9' {
        c as int - '0' as int
    } else if 'a' <= c && c <= 'f' {
        c as int - 'a' as int + 10
    } else {
        c as int - 'A' as int + 10
    }
}

/// The sixteen lower-case hexadecimal digits.
pub open spec fn hex_digits() -> Seq<char> {
    seq!['0', '1', '2', '3', '4', '5', '6', '7', '8', '9', 'a', 'b', 'c', 'd', 'e', 'f']
}

/// Whether a text is a well-formed identifier token: 24 hexadecimal digits.
pub open spec fn is_object_id_text(s: Seq<char>) -> bool {
    s.len() == 24 && forall|i: int| 0 <= i < 24 ==> is_hex_digit(#[trigger] s[i])
}

/// The twelve bytes that a well-formed identifier token spells, two digits per byte.
pub open spec fn object_id_of(s: Seq<char>) -> Seq<u8> {
    Seq::new(12, |i: int| (hex_value(s[2 * i]) * 16 + hex_value(s[2 * i + 1])) as u8)
}

/// The lower-case hexadecimal text of some bytes, two digits per byte, high digit first.
pub open spec fn hex_text(b: Seq<u8>) -> Seq<char> {
    Seq::new(
        2 * b.len(),
        |i: int|
            if i % 2 == 0 {
                hex_digits()[(b[i / 2] / 16) as int]
            } else {
                hex_digits()[(b[i / 2] % 16) as int]
            },
    )
}

/// Relies on bson's `ObjectId::parse_str`, which decodes the text with `hex::decode`
/// (digits of either case, two per byte) and accepts exactly twelve bytes.
#[verifier::external_body]
pub(crate) fn parse_object_id(s: &str) -> (r: Option<[u8; 12]>)
    ensures
        r.is_some() == is_object_id_text(s@),
        r.is_some() ==> r.unwrap()@ == object_id_of(s@),
{
    bson::oid::ObjectId::parse_str(s).ok().map(|id| id.bytes())
}

/// Relies on bson's `ObjectId::to_hex`, which is `hex::encode` of the twelve bytes:
/// lower-case digits, high digit first.
#[verifier::external_body]
pub(crate) fn object_id_hex(b: [u8; 12]) -> (r: String)
    ensures
        r@ == hex_text(b@),
{
    bson::oid::ObjectId::from_bytes(b).to_hex()
}

/// The text of any twelve bytes is a well-formed token that spells them back.
pub proof fn lemma_hex_text_parses(b: Seq<u8>)
    requires
        b.len() == 12,
    ensures
        is_object_id_text(hex_text(b)),
        object_id_of(hex_text(b)) == b,
{
    let t = hex_text(b);
    assert forall|i: int| 0 <= i < 24 implies is_hex_digit(#[trigger] t[i]) by {
        let d: int = if i % 2 == 0 {
            b[i / 2] / 16
        } else {
            b[i / 2] % 16
        } as int;
        assert(0 <= d < 16);
        assert(t[i] == hex_digits()[d]);
    }
    assert forall|i: int| 0 <= i < 12 implies #[trigger] object_id_of(t)[i] == b[i] by {
        let hi = b[i] / 16;
        let lo = b[i] % 16;
        assert(t[2 * i] == hex_digits()[hi as int]);
        assert(t[2 * i + 1] == hex_digits()[lo as int]);
        assert(hex_value(hex_digits()[hi as int]) == hi);
        assert(hex_value(hex_digits()[lo as int]) == lo);
    }
    assert(object_id_of(t) =~= b);
}

/// A well-formed token in lower case is the text of the bytes that it spells.
pub proof fn lemma_lower_text_round_trip(s: Seq<char>)
    requires
        is_object_id_text(s),
        forall|i: int| 0 <= i < s.len() ==> is_lower_hex_digit(#[trigger] s[i]),
    ensures
        hex_text(object_id_of(s)) == s,
{
    let b = object_id_of(s);
    assert forall|i: int| 0 <= i < 24 implies #[trigger] hex_text(b)[i] == s[i] by {
        let k = i / 2;
        let hi = hex_value(s[2 * k]);
        let lo = hex_value(s[2 * k + 1]);
        assert(is_lower_hex_digit(s[2 * k]));
        assert(is_lower_hex_digit(s[2 * k + 1]));
        assert(0 <= hi < 16 && 0 <= lo < 16);
        assert(b[k] == (hi * 16 + lo) as u8);
        assert((hi * 16 + lo) / 16 == hi) by (nonlinear_arith)
            requires
                0 <= hi < 16,
                0 <= lo < 16,
        ;
        assert((hi * 16 + lo) % 16 == lo) by (nonlinear_arith)
            requires
                0 <= hi < 16,
                0 <= lo < 16,
        ;
        assert(hex_digits()[hi] == s[2 * k]);
        assert(hex_digits()[lo] == s[2 * k + 1]);
    }
    assert(hex_text(b) =~= s);
}

} // verus!
