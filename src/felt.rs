use vstd::prelude::*;
use crate::hex::{hex_text, nibbles_of_bytes, hex_from_nibbles, byte_nibbles};

verus! {

broadcast use vstd::std_specs::vec::group_vec_axioms, vstd::seq::group_seq_axioms, vstd::array::group_array_axioms;

/// The order of the Starknet field: 2^251 + 17 * 2^192 + 1.
pub open spec fn field_prime() -> nat {
    (pow2(251) + 17 * pow2(192) + 1) as nat
}

pub open spec fn pow2(e: nat) -> nat
    decreases e,
{
    if e == 0 { 1 } else { 2 * pow2((e - 1) as nat) }
}

/// The number that a big-endian byte sequence denotes.
pub open spec fn be_value(b: Seq<u8>) -> nat
    decreases b.len(),
{
    if b.len() == 0 {
        0
    } else {
        be_value(b.drop_last()) * 256 + b.last() as nat
    }
}

pub open spec fn is_dec_char(c: char) -> bool {
    '0' <= c && c <= '9'
}

pub open spec fn is_hex_char(c: char) -> bool {
    ('0' <= c && c <= '9') || ('a' <= c && c <= 'f') || ('A' <= c && c <= 'F')
}

pub open spec fn dec_char_value(c: char) -> nat {
    (c as u32 - '0' as u32) as nat
}

pub open spec fn hex_char_value(c: char) -> nat {
    if '0' <= c && c <= '9' {
        (c as u32 - '0' as u32) as nat
    } else if 'a' <= c && c <= 'f' {
        (c as u32 - 'a' as u32 + 10) as nat
    } else {
        (c as u32 - 'A' as u32 + 10) as nat
    }
}

/// The number written by a string of decimal digits.
pub open spec fn dec_value(s: Seq<char>) -> nat
    decreases s.len(),
{
    if s.len() == 0 { 0 } else { dec_value(s.drop_last()) * 10 + dec_char_value(s.last()) }
}

/// The number written by a string of hexadecimal digits.
pub open spec fn hex_value(s: Seq<char>) -> nat
    decreases s.len(),
{
    if s.len() == 0 { 0 } else { hex_value(s.drop_last()) * 16 + hex_char_value(s.last()) }
}

/// A decimal literal: digits only (the empty string denotes zero).
pub open spec fn is_dec_literal(s: Seq<char>) -> bool {
    forall|i: int| 0 <= i < s.len() ==> is_dec_char(#[trigger] s[i])
}

/// A hexadecimal literal: `0x` and at most 64 digits of either case.
pub open spec fn is_hex_literal(s: Seq<char>) -> bool {
    &&& s.len() >= 2
    &&& s[0] == '0'
    &&& s[1] == 'x'
    &&& s.len() - 2 <= 64
    &&& forall|i: int| 2 <= i < s.len() ==> is_hex_char(#[trigger] s[i])
}

/// The number that a decimal or hexadecimal literal denotes.
pub open spec fn literal_value(s: Seq<char>) -> nat {
    if is_hex_literal(s) { hex_value(s.subrange(2, s.len() as int)) } else { dec_value(s) }
}

/// A field element: the identity of an entity, a key, an address or a hash,
/// held as its 32 big-endian bytes.
#[derive(Debug, Clone, Copy, PartialEq, Eq)]
pub struct Felt {
    pub bytes: [u8; 32],
}

impl Felt {
    pub open spec fn value(self) -> nat {
        be_value(self.bytes@)
    }

    /// Equality by value.
    pub fn same(&self, other: &Felt) -> (r: bool)
        ensures
            r == (self.bytes@ == other.bytes@),
    {
        let mut i: usize = 0;
        while i < 32
            invariant
                0 <= i <= 32,
                self.bytes@.len() == 32,
                other.bytes@.len() == 32,
                forall|j: int| 0 <= j < i ==> self.bytes@[j] == other.bytes@[j],
            decreases 32 - i,
        {
            if self.bytes[i] != other.bytes[i] {
                return false;
            }
            i = i + 1;
        }
        assert(self.bytes@ =~= other.bytes@);
        true
    }

    /// The boundary rendering: `0x` and lowercase hexadecimal without leading zeros.
    pub fn to_hex_string(&self) -> (r: String)
        ensures
            r@ == hex_text(nibbles_of_bytes(self.bytes@)),
    {
        let ds = byte_nibbles(self.bytes.as_slice());
        hex_from_nibbles(&ds)
    }
}

/// Relies on starknet's `FieldElement::from_str` (and `to_bytes_be` for the result): a string
/// that starts with `0x` is read as hexadecimal (at most 64 digits, either case), any other as
/// decimal; the value must lie below the field's order.
#[verifier::external_body]
fn field_element_from_str(s: &str) -> (r: Option<[u8; 32]>)
    ensures
        (is_dec_literal(s@) || is_hex_literal(s@)) ==> (r is Some <==> literal_value(s@)
            < field_prime()),
        (is_dec_literal(s@) || is_hex_literal(s@)) && r is Some ==> be_value(r->0@)
            == literal_value(s@),
        !(s@.len() >= 2 && s@[0] == '0' && s@[1] == 'x') && !is_dec_literal(s@) ==> r is None,
{
    match <starknet::core::types::FieldElement as std::str::FromStr>::from_str(s) {
        Ok(f) => Some(f.to_bytes_be()),
        Err(_) => None,
    }
}

/// Whether a string is read as a field element by `Felt::parse`.
pub open spec fn parses(s: Seq<char>) -> bool {
    (is_dec_literal(s) || is_hex_literal(s)) && literal_value(s) < field_prime()
}

impl Felt {
    /// Reads a decimal or `0x`-hexadecimal literal. `None` when the text is not a number
    /// or the number is not below the field's order.
    pub fn parse(s: &str) -> (r: Option<Felt>)
        ensures
            (is_dec_literal(s@) || is_hex_literal(s@)) ==> (r is Some <==> parses(s@)),
            parses(s@) ==> r is Some && r->0.value() == literal_value(s@),
            !(s@.len() >= 2 && s@[0] == '0' && s@[1] == 'x') && !is_dec_literal(s@) ==> r is None,
    {
        match field_element_from_str(s) {
            Some(b) => Some(Felt { bytes: b }),
            None => None,
        }
    }
}

/// Whether a text can be a Cairo short string: ASCII, and at most 31 bytes long.
pub open spec fn is_short_string(s: Seq<char>) -> bool {
    vstd::utf8::is_ascii_chars(s) && vstd::utf8::encode_utf8(s).len() <= 31
}

/// The big-endian bytes of a Cairo short string: the text's bytes, right-aligned in 32 bytes.
pub open spec fn short_string_bytes(b: Seq<u8>) -> Seq<u8> {
    Seq::new((32 - b.len()) as nat, |i: int| 0u8) + b
}

/// Relies on starknet's `cairo_short_string_to_felt`: an ASCII string of at most 31 bytes becomes
/// the field element whose big-endian bytes are the string's bytes padded with leading zeros;
/// any other string is refused.
#[verifier::external_body]
fn cairo_short_string(s: &str) -> (r: Option<[u8; 32]>)
    ensures
        r is Some <==> is_short_string(s@),
        r is Some ==> r->0@ == short_string_bytes(vstd::utf8::encode_utf8(s@)),
{
    match starknet::core::utils::cairo_short_string_to_felt(s) {
        Ok(f) => Some(f.to_bytes_be()),
        Err(_) => None,
    }
}

impl Felt {
    /// The field element that encodes a short ASCII name (at most 31 bytes).
    pub fn from_short_string(s: &str) -> (r: Option<Felt>)
        ensures
            r is Some <==> is_short_string(s@),
            r is Some ==> r->0.bytes@ == short_string_bytes(vstd::utf8::encode_utf8(s@)),
    {
        match cairo_short_string(s) {
            Some(b) => Some(Felt { bytes: b }),
            None => None,
        }
    }
}

} // verus!
