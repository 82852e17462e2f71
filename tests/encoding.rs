use torii_client_wasm::entity::{parse_entities_as_json_str, Entity, Model};
use torii_client_wasm::felt::Felt;
use torii_client_wasm::json::JsonValue;
use torii_client_wasm::primitive::{primitive_type_name, primitive_value_json, Primitive, U256};
use torii_client_wasm::ty::{parse_ty_as_json_str, EncodeError, EnumTy, Member, StructTy, Ty};

fn felt(v: u64) -> Felt {
    let mut bytes = [0u8; 32];
    bytes[24..].copy_from_slice(&v.to_be_bytes());
    Felt { bytes }
}

fn s(x: &str) -> String {
    x.to_string()
}

fn tagged(t: &str, v: JsonValue) -> JsonValue {
    JsonValue::Object(vec![(s("type"), JsonValue::Str(s(t))), (s("value"), v)])
}

fn member(name: &str, ty: Ty) -> Member {
    Member { name: s(name), ty }
}

fn text(v: JsonValue) -> String {
    match v {
        JsonValue::Str(t) => t,
        other => panic!("not text: {:?}", other),
    }
}

#[test]
fn wide_values_render_as_lowercase_hex() {
    assert_eq!(text(primitive_value_json(&Primitive::U128(Some(255)))), "0xff");
    assert_eq!(text(primitive_value_json(&Primitive::U128(Some(0)))), "0x0");
    assert_eq!(
        text(primitive_value_json(&Primitive::U128(Some(u128::MAX)))),
        format!("0x{}", "f".repeat(32))
    );
    assert_eq!(
        text(primitive_value_json(&Primitive::U256(Some(U256 { high: 1, low: 0xab })))),
        format!("0x1{}ab", "0".repeat(30))
    );
    assert_eq!(text(primitive_value_json(&Primitive::Felt252(Some(felt(0xdead))))), "0xdead");
    assert_eq!(text(primitive_value_json(&Primitive::ClassHash(Some(felt(0))))), "0x0");
    assert_eq!(
        text(primitive_value_json(&Primitive::ContractAddress(Some(felt(0x1234_abcd))))),
        "0x1234abcd"
    );
    let mut high = [0u8; 32];
    high[0] = 0x07;
    high[31] = 0xc0;
    let t = text(primitive_value_json(&Primitive::Felt252(Some(Felt { bytes: high }))));
    assert_eq!(t, format!("0x7{}c0", "0".repeat(60)));
    assert!(t.chars().skip(2).all(|c| c.is_ascii_hexdigit() && !c.is_ascii_uppercase()));
}

#[test]
fn narrow_values_render_as_numbers() {
    assert_eq!(primitive_value_json(&Primitive::U8(Some(5))), JsonValue::Number(5));
    assert_eq!(primitive_value_json(&Primitive::U16(Some(65535))), JsonValue::Number(65535));
    assert_eq!(primitive_value_json(&Primitive::U32(Some(7))), JsonValue::Number(7));
    assert_eq!(primitive_value_json(&Primitive::U64(Some(u64::MAX))), JsonValue::Number(u64::MAX));
    assert_eq!(primitive_value_json(&Primitive::USize(Some(42))), JsonValue::Number(42));
    assert_eq!(primitive_value_json(&Primitive::Bool(Some(true))), JsonValue::Bool(true));
}

#[test]
fn unset_values_render_as_null() {
    let all = [
        Primitive::Bool(None),
        Primitive::U8(None),
        Primitive::U16(None),
        Primitive::U32(None),
        Primitive::U64(None),
        Primitive::USize(None),
        Primitive::U128(None),
        Primitive::U256(None),
        Primitive::Felt252(None),
        Primitive::ClassHash(None),
        Primitive::ContractAddress(None),
    ];
    for p in all.iter() {
        assert_eq!(primitive_value_json(p), JsonValue::Null);
    }
}

#[test]
fn primitive_type_names() {
    assert_eq!(primitive_type_name(&Primitive::U64(None)), "u64");
    assert_eq!(primitive_type_name(&Primitive::Felt252(None)), "felt252");
    assert_eq!(primitive_type_name(&Primitive::ContractAddress(None)), "contractaddress");
    assert_eq!(primitive_type_name(&Primitive::ClassHash(None)), "classhash");
    assert_eq!(primitive_type_name(&Primitive::USize(None)), "usize");
    assert_eq!(primitive_type_name(&Primitive::U256(None)), "u256");
}

#[test]
fn primitive_encodes_with_its_type() {
    let j = parse_ty_as_json_str(&Ty::Primitive(Primitive::U32(Some(5)))).unwrap();
    assert_eq!(j, tagged("u32", JsonValue::Number(5)));
}

#[test]
fn struct_round_trip_by_field_name() {
    let st = Ty::Struct(StructTy {
        name: s("Position"),
        children: vec![
            member("y", Ty::Primitive(Primitive::U32(Some(9)))),
            member("x", Ty::Primitive(Primitive::U32(Some(5)))),
            member("owner", Ty::Primitive(Primitive::ContractAddress(Some(felt(0xab))))),
        ],
    });
    let j = parse_ty_as_json_str(&st).unwrap();
    let fields = match &j {
        JsonValue::Object(es) => {
            assert_eq!(es[0].0, "type");
            assert_eq!(es[0].1, JsonValue::Str(s("struct")));
            match &es[1].1 {
                JsonValue::Object(fs) => fs,
                _ => panic!("struct value is not an object"),
            }
        }
        _ => panic!("not an object"),
    };
    let names: Vec<&str> = fields.iter().map(|(k, _)| k.as_str()).collect();
    assert_eq!(names, vec!["y", "x", "owner"]);
    let get = |k: &str| fields.iter().find(|(n, _)| n == k).map(|(_, v)| v).unwrap();
    assert_eq!(get("x"), &tagged("u32", JsonValue::Number(5)));
    assert_eq!(get("y"), &tagged("u32", JsonValue::Number(9)));
    assert_eq!(get("owner"), &tagged("contractaddress", JsonValue::Str(s("0xab"))));
}

#[test]
fn nested_struct_encodes_recursively() {
    let inner = Ty::Struct(StructTy {
        name: s("Vec2"),
        children: vec![member("x", Ty::Primitive(Primitive::U8(Some(1))))],
    });
    let outer = Ty::Struct(StructTy { name: s("Moves"), children: vec![member("pos", inner)] });
    let j = parse_ty_as_json_str(&outer).unwrap();
    let expected = tagged(
        "struct",
        JsonValue::Object(vec![(
            s("pos"),
            tagged("struct", JsonValue::Object(vec![(s("x"), tagged("u8", JsonValue::Number(1)))])),
        )]),
    );
    assert_eq!(j, expected);
}

#[test]
fn encoding_twice_is_identical() {
    let t = Ty::Struct(StructTy {
        name: s("P"),
        children: vec![
            member("a", Ty::Primitive(Primitive::U128(Some(77)))),
            member("b", Ty::Enum(EnumTy { name: s("Dir"), option: Some(1) })),
        ],
    });
    let a = parse_ty_as_json_str(&t).unwrap();
    let b = parse_ty_as_json_str(&t).unwrap();
    assert_eq!(a, b);
    assert_eq!(format!("{:?}", a), format!("{:?}", b));
}

#[test]
fn enum_encodes_selected_index() {
    let some = parse_ty_as_json_str(&Ty::Enum(EnumTy { name: s("Direction"), option: Some(2) }));
    assert_eq!(some.unwrap(), tagged("enum", JsonValue::Number(2)));
    let none = parse_ty_as_json_str(&Ty::Enum(EnumTy { name: s("Direction"), option: None }));
    assert_eq!(none.unwrap(), tagged("enum", JsonValue::Null));
}

#[test]
fn tuple_is_refused() {
    assert_eq!(parse_ty_as_json_str(&Ty::Tuple(vec![])), Err(EncodeError::UnsupportedTuple));
    let nested = Ty::Struct(StructTy {
        name: s("S"),
        children: vec![
            member("ok", Ty::Primitive(Primitive::U8(Some(1)))),
            member("bad", Ty::Tuple(vec![Ty::Primitive(Primitive::U8(Some(2)))])),
        ],
    });
    assert_eq!(parse_ty_as_json_str(&nested), Err(EncodeError::UnsupportedTuple));
}

fn position_entity(id: u64, x: u32) -> Entity {
    Entity {
        hashed_keys: felt(id),
        models: vec![Model {
            name: s("Position"),
            members: vec![member("x", Ty::Primitive(Primitive::U32(Some(x))))],
        }],
    }
}

#[test]
fn entities_keyed_by_hex_identity() {
    let j = parse_entities_as_json_str(&vec![position_entity(1, 5)]).unwrap();
    let expected = JsonValue::Object(vec![(
        s("0x1"),
        JsonValue::Object(vec![(
            s("Position"),
            JsonValue::Object(vec![(s("x"), tagged("u32", JsonValue::Number(5)))]),
        )]),
    )]);
    assert_eq!(j, expected);
}

#[test]
fn duplicate_identity_last_write_wins() {
    let j = parse_entities_as_json_str(&vec![
        position_entity(1, 5),
        position_entity(2, 6),
        position_entity(1, 7),
    ])
    .unwrap();
    let expected = JsonValue::Object(vec![
        (
            s("0x1"),
            JsonValue::Object(vec![(
                s("Position"),
                JsonValue::Object(vec![(s("x"), tagged("u32", JsonValue::Number(7)))]),
            )]),
        ),
        (
            s("0x2"),
            JsonValue::Object(vec![(
                s("Position"),
                JsonValue::Object(vec![(s("x"), tagged("u32", JsonValue::Number(6)))]),
            )]),
        ),
    ]);
    assert_eq!(j, expected);
}

#[test]
fn no_entities_is_empty_object() {
    assert_eq!(parse_entities_as_json_str(&vec![]).unwrap(), JsonValue::Object(vec![]));
}

#[test]
fn entity_with_tuple_is_refused() {
    let e = Entity {
        hashed_keys: felt(3),
        models: vec![Model { name: s("M"), members: vec![member("t", Ty::Tuple(vec![]))] }],
    };
    assert_eq!(parse_entities_as_json_str(&vec![e]), Err(EncodeError::UnsupportedTuple));
}
