//! BLAKE3-256 content identity and its hexadecimal text form.
//!
//! A content hash is 32 bytes. Its canonical text is 64 lowercase
//! hexadecimal digits, two per byte, high nibble first; parsing accepts
//! either letter case.

use vstd::prelude::*;

use crate::text::push_char;

verus! {

/// Lowercase hexadecimal digit of a nibble (`0..16`).
pub open spec fn hex_digit(n: int) -> char {
    if n < 10 {
        ((n + 48) as u8) as char
    } else {
        ((n + 87) as u8) as char
    }
}

/// The lowercase hexadecimal text of a byte sequence.
pub open spec fn hex_text(bytes: Seq<u8>) -> Seq<char> {
    Seq::new(
        2 * bytes.len(),
        |i: int|
            if i % 2 == 0 {
                hex_digit(bytes[i / 2] as int / 16)
            } else {
                hex_digit(bytes[i / 2] as int % 16)
            },
    )
}

/// A hexadecimal digit of either case.
pub open spec fn is_hex_char(c: char) -> bool {
    ||| 48 <= c as int <= 57
    ||| 97 <= c as int <= 102
    ||| 65 <= c as int <= 70
}

/// A lowercase hexadecimal digit.
pub open spec fn is_lower_hex_char(c: char) -> bool {
    ||| 48 <= c as int <= 57
    ||| 97 <= c as int <= 102
}

/// The nibble value of a hexadecimal digit.
pub open spec fn hex_value(c: char) -> int {
    if 48 <= c as int <= 57 {
        c as int - 48
    } else if 97 <= c as int <= 102 {
        c as int - 87
    } else {
        c as int - 55
    }
}

/// Text that names a content hash: exactly 64 hexadecimal digits.
pub open spec fn is_hash_text(text: Seq<char>) -> bool {
    &&& text.len() == 64
    &&& forall|i: int| 0 <= i < 64 ==> is_hex_char(#[trigger] text[i])
}

/// The 32 bytes that hash text denotes.
pub open spec fn hash_text_bytes(text: Seq<char>) -> Seq<u8> {
    Seq::new(32, |i: int| (16 * hex_value(text[2 * i]) + hex_value(text[2 * i + 1])) as u8)
}

/// Exact identity of a byte payload.
#[derive(Clone, Copy, Debug, PartialEq, Eq, Hash)]
pub struct ContentHash {
    pub bytes: [u8; 32],
}

impl ContentHash {
    /// Wraps 32 digest bytes.
    pub fn new(bytes: [u8; 32]) -> (r: ContentHash)
        ensures
            r.bytes == bytes,
    {
        ContentHash { bytes }
    }

    /// Whether two hashes are the same identity.
    pub fn same_as(&self, other: &ContentHash) -> (r: bool)
        ensures
            r == (self.bytes@ == other.bytes@),
    {
        let mut i: usize = 0;
        while i < 32
            invariant
                i <= 32,
                self.bytes@.len() == 32,
                other.bytes@.len() == 32,
                forall|k: int| 0 <= k < i ==> self.bytes@[k] == other.bytes@[k],
            decreases 32 - i,
        {
            if self.bytes[i] != other.bytes[i] {
                return false;
            }
            i = i + 1;
        }
        assert(self.bytes@ =~= other.bytes@);
        true
    }

    /// The canonical lowercase hexadecimal text.
    pub fn to_hex(&self) -> (r: String)
        ensures
            r@ == hex_text(self.bytes@),
    {
        let mut r = String::new();
        let mut i: usize = 0;
        while i < 32
            invariant
                i <= 32,
                self.bytes@.len() == 32,
                r@.len() == 2 * i,
                forall|k: int| 0 <= k < 2 * i ==> r@[k] == hex_text(self.bytes@)[k],
            decreases 32 - i,
        {
            let b = self.bytes[i];
            push_char(&mut r, nibble_char(b / 16));
            push_char(&mut r, nibble_char(b % 16));
            i = i + 1;
        }
        assert(r@ =~= hex_text(self.bytes@));
        r
    }

    /// Parses 64 hexadecimal digits of either case; any other text is
    /// rejected.
    pub fn from_hex(text: &str) -> (r: Option<ContentHash>)
        ensures
            r is Some <==> is_hash_text(text@),
            r matches Some(h) ==> h.bytes@ == hash_text_bytes(text@),
    {
        let n = text.unicode_len();
        if n != 64 {
            return None;
        }
        let mut bytes = [0u8; 32];
        let mut i: usize = 0;
        while i < 32
            invariant
                i <= 32,
                n == 64,
                text@.len() == 64,
                bytes@.len() == 32,
                forall|k: int| 0 <= k < 2 * i ==> is_hex_char(#[trigger] text@[k]),
                forall|k: int| 0 <= k < i ==> bytes@[k] == hash_text_bytes(text@)[k],
            decreases 32 - i,
        {
            let high = hex_nibble(text.get_char(2 * i));
            let low = hex_nibble(text.get_char(2 * i + 1));
            match (high, low) {
                (Some(h), Some(l)) => {
                    bytes[i] = 16 * h + l;
                },
                _ => {
                    return None;
                },
            }
            i = i + 1;
        }
        assert(bytes@ =~= hash_text_bytes(text@));
        Some(ContentHash { bytes })
    }
}

fn nibble_char(n: u8) -> (c: char)
    requires
        n < 16,
    ensures
        c == hex_digit(n as int),
{
    if n < 10 {
        (n + 48) as char
    } else {
        (n + 87) as char
    }
}

fn hex_nibble(c: char) -> (r: Option<u8>)
    ensures
        r is Some <==> is_hex_char(c),
        r matches Some(v) ==> v as int == hex_value(c) && v < 16,
{
    if '0' <= c && c <= '9' {
        Some((c as u8) - 48)
    } else if 'a' <= c && c <= 'f' {
        Some((c as u8) - 87)
    } else if 'A' <= c && c <= 'F' {
        Some((c as u8) - 55)
    } else {
        None
    }
}

/// The canonical text of any 32 bytes parses back to those bytes.
pub proof fn lemma_hash_text_round_trip(bytes: Seq<u8>)
    requires
        bytes.len() == 32,
    ensures
        is_hash_text(hex_text(bytes)),
        hash_text_bytes(hex_text(bytes)) == bytes,
{
    let t = hex_text(bytes);
    assert forall|i: int| 0 <= i < 64 implies is_hex_char(#[trigger] t[i]) by {
        let b = bytes[i / 2] as int;
        let n = if i % 2 == 0 { b / 16 } else { b % 16 };
        assert(0 <= n < 16);
        assert(t[i] == hex_digit(n));
    }
    assert forall|i: int| 0 <= i < 32 implies hash_text_bytes(t)[i] == bytes[i] by {
        let b = bytes[i] as int;
        assert(t[2 * i] == hex_digit(b / 16));
        assert(t[2 * i + 1] == hex_digit(b % 16));
        assert(hex_value(hex_digit(b / 16)) == b / 16);
        assert(hex_value(hex_digit(b % 16)) == b % 16);
    }
    assert(hash_text_bytes(t) =~= bytes);
}

/// Lowercase hash text is exactly the canonical text of the bytes it names.
pub proof fn lemma_lower_hash_text_is_canonical(text: Seq<char>)
    requires
        text.len() == 64,
        forall|i: int| 0 <= i < 64 ==> is_lower_hex_char(#[trigger] text[i]),
    ensures
        is_hash_text(text),
        hex_text(hash_text_bytes(text)) == text,
{
    let bytes = hash_text_bytes(text);
    assert forall|i: int| 0 <= i < 64 implies is_hex_char(#[trigger] text[i]) by {
        assert(is_lower_hex_char(text[i]));
    }
    assert forall|k: int| 0 <= k < 64 implies hex_text(bytes)[k] == text[k] by {
        let j = k / 2;
        let hi = hex_value(text[2 * j]);
        let lo = hex_value(text[2 * j + 1]);
        assert(is_lower_hex_char(text[2 * j]));
        assert(is_lower_hex_char(text[2 * j + 1]));
        assert(0 <= hi < 16 && 0 <= lo < 16);
        assert(bytes[j] as int == 16 * hi + lo);
        lemma_digit_of_value(text[k]);
    }
    assert(hex_text(bytes) =~= text);
}

proof fn lemma_digit_of_value(c: char)
    requires
        is_lower_hex_char(c),
    ensures
        hex_digit(hex_value(c)) == c,
{
    let v = c as int;
    if 48 <= v <= 57 {
        assert(((v as u8) as char) as int == v);
    } else {
        assert(((v as u8) as char) as int == v);
    }
}

} // verus!
