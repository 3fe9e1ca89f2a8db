//! Identities the catalog stores as text: asset ids and import ids are
//! UUIDs, written in their hyphenated form.

use vstd::prelude::*;

use crate::content_hash::{hex_digit, hex_value};

verus! {

/// The UUID that `text` denotes, as `uuid::Uuid::try_parse` reads it.
pub uninterp spec fn uuid_parse(text: Seq<char>) -> Option<u128>;

/// The displayed message of every `uuid::Uuid::try_parse` failure: the
/// parser reports one generic error whatever went wrong.
pub open spec fn uuid_parse_failure() -> Seq<char> {
    "failed to parse a UUID"@
}

/// The `i`-th of the 32 hexadecimal digits of a UUID's value, most
/// significant first.
pub open spec fn uuid_nibble(value: u128, i: int) -> int {
    ((value >> ((124 - 4 * i) as u128)) & 15u128) as int
}

/// The 32 lowercase hexadecimal digits of a UUID's value.
pub open spec fn uuid_hex(value: u128) -> Seq<char> {
    Seq::new(32, |i: int| hex_digit(uuid_nibble(value, i)))
}

/// The hyphenated lowercase text of a UUID: its digits in groups of
/// 8-4-4-4-12.
pub open spec fn uuid_hyphenated(value: u128) -> Seq<char> {
    let h = uuid_hex(value);
    h.subrange(0, 8) + seq!['-'] + h.subrange(8, 12) + seq!['-'] + h.subrange(12, 16) + seq!['-']
        + h.subrange(16, 20) + seq!['-'] + h.subrange(20, 32)
}

/// `text` is the hyphenated lowercase text of some UUID.
pub open spec fn is_canonical_uuid_text(text: Seq<char>) -> bool {
    exists|value: u128| text == uuid_hyphenated(value)
}

/// Calls `uuid::Uuid::try_parse`. The contract claims that the outcome is
/// the fixed reading of the text, that every failure displays the same
/// generic message, and that the hyphenated lowercase text the crate
/// writes for a value reads back as that value.
#[verifier::external_body]
pub(crate) fn parse_uuid(text: &str) -> (r: Result<u128, String>)
    ensures
        r is Ok <==> uuid_parse(text@) is Some,
        r matches Ok(value) ==> uuid_parse(text@) == Some(value),
        r matches Err(message) ==> message@ == uuid_parse_failure(),
        r is Err ==> !is_canonical_uuid_text(text@),
        r matches Ok(value) ==> is_canonical_uuid_text(text@) ==> uuid_hyphenated(value) == text@,
{
    match uuid::Uuid::try_parse(text) {
        Ok(value) => Ok(value.as_u128()),
        Err(error) => Err(error.to_string()),
    }
}

/// Calls `uuid::Uuid::from_u128(value).to_string()`: the contract claims
/// the hyphenated lowercase text of `value`, whose bytes are the value's
/// big-endian bytes.
#[verifier::external_body]
pub(crate) fn uuid_text(value: u128) -> (r: String)
    ensures
        r@ == uuid_hyphenated(value),
{
    uuid::Uuid::from_u128(value).to_string()
}

/// Identity of one registered asset.
#[derive(Debug, Clone, Copy, PartialEq, Eq, Hash, Structural)]
pub struct AssetId {
    pub value: u128,
}

impl AssetId {
    /// Parses an asset id; the error is the parser's message.
    pub fn parse(text: &str) -> (r: Result<AssetId, String>)
        ensures
            r is Ok <==> uuid_parse(text@) is Some,
            r matches Ok(id) ==> uuid_parse(text@) == Some(id.value),
            r matches Err(message) ==> message@ == uuid_parse_failure(),
            forall|value: u128| text@ == uuid_hyphenated(value) ==> r == Ok::<AssetId, String>(
                AssetId { value },
            ),
    {
        let parsed = parse_uuid(text);
        proof {
            assert forall|value: u128| text@ == uuid_hyphenated(value) implies parsed == Ok::<
                u128,
                String,
            >(value) by {
                assert(is_canonical_uuid_text(text@));
                if let Ok(other) = parsed {
                    lemma_uuid_hyphenated_injective(other, value);
                }
            }
        }
        match parsed {
            Ok(value) => Ok(AssetId { value }),
            Err(message) => Err(message),
        }
    }

    /// The stored text of this id.
    pub fn to_text(&self) -> (r: String)
        ensures
            r@ == uuid_hyphenated(self.value),
    {
        uuid_text(self.value)
    }
}

proof fn lemma_top_nibble(v: u128)
    by (bit_vector)
    ensures
        (v >> 124u128) & 15u128 == v >> 124u128,
{
}

proof fn lemma_nibble_below_sixteen(v: u128, s: u128)
    by (bit_vector)
    ensures
        (v >> s) & 15u128 <= 15u128,
{
}

proof fn lemma_shift_step(v: u128, s: u128)
    by (bit_vector)
    requires
        s <= 120u128,
    ensures
        v >> s == ((v >> (s + 4u128)) << 4u128) | ((v >> s) & 15u128),
{
}

/// Equal digits up to `k` give equal values shifted down to those digits.
proof fn lemma_equal_prefix(a: u128, b: u128, k: int)
    requires
        1 <= k <= 32,
        forall|i: int| 0 <= i < k ==> uuid_nibble(a, i) == uuid_nibble(b, i),
    ensures
        a >> ((128 - 4 * k) as u128) == b >> ((128 - 4 * k) as u128),
    decreases k,
{
    if k == 1 {
        lemma_top_nibble(a);
        lemma_top_nibble(b);
        assert(uuid_nibble(a, 0) == uuid_nibble(b, 0));
    } else {
        lemma_equal_prefix(a, b, k - 1);
        let s = (128 - 4 * k) as u128;
        assert(uuid_nibble(a, k - 1) == uuid_nibble(b, k - 1));
        assert((124 - 4 * (k - 1)) as u128 == s);
        assert(s + 4u128 == (128 - 4 * (k - 1)) as u128);
        lemma_shift_step(a, s);
        lemma_shift_step(b, s);
    }
}

/// Distinct UUIDs have distinct hyphenated texts.
pub proof fn lemma_uuid_hyphenated_injective(a: u128, b: u128)
    requires
        uuid_hyphenated(a) == uuid_hyphenated(b),
    ensures
        a == b,
{
    let ha = uuid_hex(a);
    let hb = uuid_hex(b);
    assert forall|i: int| 0 <= i < 32 implies ha[i] == hb[i] by {
        let j = if i < 8 {
            i
        } else if i < 12 {
            i + 1
        } else if i < 16 {
            i + 2
        } else if i < 20 {
            i + 3
        } else {
            i + 4
        };
        assert(uuid_hyphenated(a)[j] == ha[i]);
        assert(uuid_hyphenated(b)[j] == hb[i]);
    }
    assert forall|i: int| 0 <= i < 32 implies uuid_nibble(a, i) == uuid_nibble(b, i) by {
        lemma_nibble_below_sixteen(a, (124 - 4 * i) as u128);
        lemma_nibble_below_sixteen(b, (124 - 4 * i) as u128);
        assert(ha[i] == hex_digit(uuid_nibble(a, i)));
        assert(hb[i] == hex_digit(uuid_nibble(b, i)));
        assert(hex_value(hex_digit(uuid_nibble(a, i))) == uuid_nibble(a, i));
        assert(hex_value(hex_digit(uuid_nibble(b, i))) == uuid_nibble(b, i));
    }
    lemma_equal_prefix(a, b, 32);
    assert(a >> 0u128 == a) by (bit_vector);
    assert(b >> 0u128 == b) by (bit_vector);
}

} // verus!
