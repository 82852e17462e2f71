use vstd::prelude::*;
use crate::felt::Felt;
use crate::hex::{
    hex_text, nibbles_u128, nibbles_of_bytes, all_digits, is_lower_hex_char, hex_from_nibbles,
    u128_nibbles, lemma_hex_text_lowercase,
};
use crate::json::{JsonValue, JsonModel};

verus! {

broadcast use vstd::std_specs::vec::group_vec_axioms, vstd::seq::group_seq_axioms;

/// A 256-bit unsigned integer as two 128-bit halves.
#[derive(Debug, Clone, Copy, PartialEq, Eq)]
pub struct U256 {
    pub high: u128,
    pub low: u128,
}

/// A scalar value of a model, each variant possibly unset.
#[derive(Debug, Clone, Copy, PartialEq, Eq)]
pub enum Primitive {
    Bool(Option<bool>),
    U8(Option<u8>),
    U16(Option<u16>),
    U32(Option<u32>),
    U64(Option<u64>),
    USize(Option<u64>),
    U128(Option<u128>),
    U256(Option<U256>),
    Felt252(Option<Felt>),
    ClassHash(Option<Felt>),
    ContractAddress(Option<Felt>),
}

/// The canonical name of a primitive's type.
pub open spec fn primitive_name(p: Primitive) -> Seq<char> {
    match p {
        Primitive::Bool(_) => "bool"@,
        Primitive::U8(_) => "u8"@,
        Primitive::U16(_) => "u16"@,
        Primitive::U32(_) => "u32"@,
        Primitive::U64(_) => "u64"@,
        Primitive::USize(_) => "usize"@,
        Primitive::U128(_) => "u128"@,
        Primitive::U256(_) => "u256"@,
        Primitive::Felt252(_) => "felt252"@,
        Primitive::ClassHash(_) => "classhash"@,
        Primitive::ContractAddress(_) => "contractaddress"@,
    }
}

/// The hexadecimal digits of a 256-bit integer, most significant first.
pub open spec fn nibbles_u256(v: U256) -> Seq<u8> {
    nibbles_u128(v.high) + nibbles_u128(v.low)
}

/// The generic value of a primitive: booleans and integers up to 64 bits as they are,
/// wider values as `0x`-prefixed lowercase hexadecimal, an unset value as null.
pub open spec fn primitive_json(p: Primitive) -> JsonModel {
    match p {
        Primitive::Bool(Some(v)) => JsonModel::Bool(v),
        Primitive::U8(Some(v)) => JsonModel::Number(v as nat),
        Primitive::U16(Some(v)) => JsonModel::Number(v as nat),
        Primitive::U32(Some(v)) => JsonModel::Number(v as nat),
        Primitive::U64(Some(v)) => JsonModel::Number(v as nat),
        Primitive::USize(Some(v)) => JsonModel::Number(v as nat),
        Primitive::U128(Some(v)) => JsonModel::Str(hex_text(nibbles_u128(v))),
        Primitive::U256(Some(v)) => JsonModel::Str(hex_text(nibbles_u256(v))),
        Primitive::Felt252(Some(v)) => JsonModel::Str(hex_text(nibbles_of_bytes(v.bytes@))),
        Primitive::ClassHash(Some(v)) => JsonModel::Str(hex_text(nibbles_of_bytes(v.bytes@))),
        Primitive::ContractAddress(Some(v)) => JsonModel::Str(
            hex_text(nibbles_of_bytes(v.bytes@)),
        ),
        _ => JsonModel::Null,
    }
}

/// Whether the primitive holds a value.
pub open spec fn is_set(p: Primitive) -> bool {
    match p {
        Primitive::Bool(o) => o is Some,
        Primitive::U8(o) => o is Some,
        Primitive::U16(o) => o is Some,
        Primitive::U32(o) => o is Some,
        Primitive::U64(o) => o is Some,
        Primitive::USize(o) => o is Some,
        Primitive::U128(o) => o is Some,
        Primitive::U256(o) => o is Some,
        Primitive::Felt252(o) => o is Some,
        Primitive::ClassHash(o) => o is Some,
        Primitive::ContractAddress(o) => o is Some,
    }
}

/// Whether the primitive is one of the wide kinds rendered as text.
pub open spec fn is_wide(p: Primitive) -> bool {
    p is U128 || p is U256 || p is Felt252 || p is ClassHash || p is ContractAddress
}

/// The integer a narrow primitive holds.
pub open spec fn narrow_value(p: Primitive) -> Option<nat> {
    match p {
        Primitive::U8(Some(v)) => Some(v as nat),
        Primitive::U16(Some(v)) => Some(v as nat),
        Primitive::U32(Some(v)) => Some(v as nat),
        Primitive::U64(Some(v)) => Some(v as nat),
        Primitive::USize(Some(v)) => Some(v as nat),
        _ => None,
    }
}

/// The canonical name of the primitive's type.
pub fn primitive_type_name(p: &Primitive) -> (r: String)
    ensures
        r@ == primitive_name(*p),
{
    match p {
        Primitive::Bool(_) => String::from_str("bool"),
        Primitive::U8(_) => String::from_str("u8"),
        Primitive::U16(_) => String::from_str("u16"),
        Primitive::U32(_) => String::from_str("u32"),
        Primitive::U64(_) => String::from_str("u64"),
        Primitive::USize(_) => String::from_str("usize"),
        Primitive::U128(_) => String::from_str("u128"),
        Primitive::U256(_) => String::from_str("u256"),
        Primitive::Felt252(_) => String::from_str("felt252"),
        Primitive::ClassHash(_) => String::from_str("classhash"),
        Primitive::ContractAddress(_) => String::from_str("contractaddress"),
    }
}

fn u128_hex(v: u128) -> (r: String)
    ensures
        r@ == hex_text(nibbles_u128(v)),
{
    let ds = u128_nibbles(v);
    hex_from_nibbles(&ds)
}

fn u256_hex(v: &U256) -> (r: String)
    ensures
        r@ == hex_text(nibbles_u256(*v)),
{
    let mut ds = u128_nibbles(v.high);
    let mut lo = u128_nibbles(v.low);
    ds.append(&mut lo);
    hex_from_nibbles(&ds)
}

/// The generic value of a primitive.
pub fn primitive_value_json(p: &Primitive) -> (r: JsonValue)
    ensures
        r.model() == primitive_json(*p),
{
    match p {
        Primitive::Bool(Some(v)) => JsonValue::Bool(*v),
        Primitive::U8(Some(v)) => JsonValue::Number(*v as u64),
        Primitive::U16(Some(v)) => JsonValue::Number(*v as u64),
        Primitive::U32(Some(v)) => JsonValue::Number(*v as u64),
        Primitive::U64(Some(v)) => JsonValue::Number(*v),
        Primitive::USize(Some(v)) => JsonValue::Number(*v),
        Primitive::U128(Some(v)) => JsonValue::Str(u128_hex(*v)),
        Primitive::U256(Some(v)) => JsonValue::Str(u256_hex(v)),
        Primitive::Felt252(Some(v)) => JsonValue::Str(v.to_hex_string()),
        Primitive::ClassHash(Some(v)) => JsonValue::Str(v.to_hex_string()),
        Primitive::ContractAddress(Some(v)) => JsonValue::Str(v.to_hex_string()),
        _ => JsonValue::Null,
    }
}

/// Text that starts with `0x` and goes on in lowercase hexadecimal digits.
pub open spec fn is_hex_rendering(j: JsonModel) -> bool {
    match j {
        JsonModel::Str(s) => s.len() >= 3 && s[0] == '0' && s[1] == 'x' && forall|i: int|
            2 <= i < s.len() ==> is_lower_hex_char(#[trigger] s[i]),
        _ => false,
    }
}

/// A set wide primitive becomes text that starts with `0x` and goes on in lowercase
/// hexadecimal digits; a set narrow integer becomes the number it holds.
pub proof fn lemma_primitive_rendering(p: Primitive)
    ensures
        is_wide(p) && is_set(p) ==> is_hex_rendering(primitive_json(p)),
        narrow_value(p) matches Some(v) ==> primitive_json(p) == JsonModel::Number(v),
{
    match p {
        Primitive::U128(Some(v)) => {
            assert(all_digits(nibbles_u128(v))) by {
                assert forall|j: int| 0 <= j < 32 implies nibbles_u128(v)[j] < 16 by {
                    let x = v >> (4 * (31 - j)) as u128;
                    assert((x & 15u128) <= 15u128) by (bit_vector);
                }
            }
            lemma_hex_text_lowercase(nibbles_u128(v));
        },
        Primitive::U256(Some(v)) => {
            assert(all_digits(nibbles_u256(v))) by {
                assert forall|j: int| 0 <= j < 32 implies nibbles_u128(v.high)[j] < 16 && nibbles_u128(v.low)[j] < 16 by {
                    let x = v.high >> (4 * (31 - j)) as u128;
                    let y = v.low >> (4 * (31 - j)) as u128;
                    assert((x & 15u128) <= 15u128) by (bit_vector);
                    assert((y & 15u128) <= 15u128) by (bit_vector);
                }
            }
            lemma_hex_text_lowercase(nibbles_u256(v));
        },
        Primitive::Felt252(Some(v)) => {
            lemma_hex_text_lowercase(nibbles_of_bytes(v.bytes@));
        },
        Primitive::ClassHash(Some(v)) => {
            lemma_hex_text_lowercase(nibbles_of_bytes(v.bytes@));
        },
        Primitive::ContractAddress(Some(v)) => {
            lemma_hex_text_lowercase(nibbles_of_bytes(v.bytes@));
        },
        _ => {},
    }
}

/// An unset primitive renders as null, whatever its type.
pub proof fn lemma_unset_is_null(p: Primitive)
    requires
        !is_set(p),
    ensures
        primitive_json(p) == JsonModel::Null,
{
}

} // verus!
