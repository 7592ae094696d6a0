//! Hexadecimal text for handing the master key to the agent process.
use vstd::prelude::*;

verus! {

/// The lowercase hexadecimal digit for a value below sixteen.
pub open spec fn hex_digit(v: int) -> char {
    if v < 10 {
        (('0' as int) + v) as char
    } else {
        (('a' as int) + v - 10) as char
    }
}

/// The value of a hexadecimal digit of either case.
pub open spec fn hex_value(c: char) -> Option<int> {
    if '0' <= c && c <= '9' {
        Some(c as int - '0' as int)
    } else if 'a' <= c && c <= 'f' {
        Some(c as int - 'a' as int + 10)
    } else if 'A' <= c && c <= 'F' {
        Some(c as int - 'A' as int + 10)
    } else {
        None
    }
}

/// Two lowercase digits for each byte, high nibble first.
pub open spec fn hex_text(b: Seq<u8>) -> Seq<char> {
    Seq::new(
        2 * b.len(),
        |i: int|
            if i % 2 == 0 {
                hex_digit(b[i / 2] as int / 16)
            } else {
                hex_digit(b[i / 2] as int % 16)
            },
    )
}

/// `t` is an even number of hexadecimal digits that spell `b`.
pub open spec fn spells(t: Seq<char>, b: Seq<u8>) -> bool {
    &&& t.len() == 2 * b.len()
    &&& forall|i: int|
        0 <= i < b.len() ==> hex_value(#[trigger] t[2 * i]) is Some && hex_value(t[2 * i + 1]) is Some
            && b[i] as int == hex_value(t[2 * i])->Some_0 * 16 + hex_value(t[2 * i + 1])->Some_0
}

/// `t` has even length and only hexadecimal digits.
pub open spec fn is_hex(t: Seq<char>) -> bool {
    t.len() % 2 == 0 && forall|i: int| 0 <= i < t.len() ==> hex_value(#[trigger] t[i]) is Some
}

/// Relies on `hex::encode`: two lowercase digits per byte, high nibble
/// first.
#[verifier::external_body]
fn hex_encode(b: &[u8]) -> (r: String)
    ensures
        r@ == hex_text(b@),
{
    hex::encode(b)
}

/// Relies on `hex::decode`: it accepts an even number of digits of either
/// case and returns the bytes they spell, and rejects anything else.
#[verifier::external_body]
fn hex_decode(t: &str) -> (r: Option<Vec<u8>>)
    ensures
        r is Some <==> is_hex(t@),
        r matches Some(b) ==> spells(t@, b@),
{
    hex::decode(t).ok()
}

/// The key as hexadecimal text.
pub fn key_to_hex(key: &[u8]) -> (r: String)
    ensures
        r@ == hex_text(key@),
{
    hex_encode(key)
}

/// The key spelled by hexadecimal text, which must name exactly
/// `expected_len` bytes.
pub fn key_from_hex(t: &str, expected_len: usize) -> (r: Option<Vec<u8>>)
    ensures
        r is Some <==> is_hex(t@) && t@.len() == 2 * expected_len,
        r matches Some(b) ==> spells(t@, b@) && b@.len() == expected_len,
{
    match hex_decode(t) {
        Some(b) => if b.len() == expected_len {
            Some(b)
        } else {
            None
        },
        None => None,
    }
}

/// The digits that `hex_text` writes spell the bytes back.
pub proof fn lemma_hex_round_trip(b: Seq<u8>)
    ensures
        is_hex(hex_text(b)),
        spells(hex_text(b), b),
{
    let t = hex_text(b);
    assert forall|i: int| 0 <= i < t.len() implies hex_value(#[trigger] t[i]) is Some by {
        let v = if i % 2 == 0 { b[i / 2] as int / 16 } else { b[i / 2] as int % 16 };
        assert(0 <= v < 16);
    }
    assert forall|i: int| 0 <= i < b.len() implies hex_value(#[trigger] t[2 * i]) is Some && hex_value(
        t[2 * i + 1],
    ) is Some && b[i] as int == hex_value(t[2 * i])->Some_0 * 16 + hex_value(t[2 * i + 1])->Some_0 by {
        assert((2 * i) % 2 == 0 && (2 * i) / 2 == i);
        assert((2 * i + 1) % 2 == 1 && (2 * i + 1) / 2 == i);
        let hi = b[i] as int / 16;
        let lo = b[i] as int % 16;
        assert(hex_value(hex_digit(hi)) == Some(hi));
        assert(hex_value(hex_digit(lo)) == Some(lo));
    }
}

/// What the agent decodes from the hexadecimal key it is handed is the key
/// that was encoded.
pub proof fn lemma_key_hand_off(key: Seq<u8>, t: Seq<char>, decoded: Seq<u8>)
    requires
        t == hex_text(key),
        spells(t, decoded),
    ensures
        decoded == key,
{
    lemma_hex_round_trip(key);
    assert forall|i: int| 0 <= i < key.len() implies decoded[i] == key[i] by {
        assert(hex_value(t[2 * i]) is Some);
    }
    assert(decoded =~= key);
}

} // verus!
