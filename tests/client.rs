use torii_client_wasm::clause::{build_clause, parse_keys, Clause, EntityModel, KeysClause, ParseError};
use torii_client_wasm::client::{
    create_client, entity_update_action, model_value_json, Client, ClientConfig, ClientError,
    ListenerAction,
};
use torii_client_wasm::entity::{parse_entities_as_json_str, Entity, Model};
use torii_client_wasm::felt::Felt;
use torii_client_wasm::json::JsonValue;
use torii_client_wasm::primitive::Primitive;
use torii_client_wasm::sync::SyncRegistry;
use torii_client_wasm::ty::{Member, Ty};

fn felt(v: u64) -> Felt {
    let mut bytes = [0u8; 32];
    bytes[24..].copy_from_slice(&v.to_be_bytes());
    Felt { bytes }
}

fn s(x: &str) -> String {
    x.to_string()
}

fn config(addr: &str) -> ClientConfig {
    ClientConfig { rpc_url: s("http://localhost:5050"), torii_url: s("http://localhost:8080"), world_address: s(addr) }
}

fn client() -> Client {
    create_client(vec![], config("0x1")).unwrap()
}

fn clause(model: &str, keys: &[u64]) -> KeysClause {
    KeysClause { model: s(model), keys: keys.iter().map(|k| felt(*k)).collect() }
}

#[test]
fn parse_hex_key() {
    assert_eq!(Felt::parse("0x1"), Some(felt(1)));
    assert_eq!(Felt::parse("0xDEAD"), Some(felt(0xdead)));
    assert_eq!(Felt::parse("10"), Some(felt(10)));
    assert_eq!(Felt::parse("0x"), Some(felt(0)));
}

#[test]
fn parse_bad_key_reports_literal() {
    let r = parse_keys(&vec![s("0x1"), s("not-a-number")]);
    assert_eq!(r, Err(ParseError { input: s("not-a-number"), position: 1 }));
    assert_eq!(Felt::parse("not-a-number"), None);
    assert_eq!(Felt::parse("0xzz"), None);
}

#[test]
fn parse_out_of_field_is_refused() {
    // the field's order itself
    let p = "0x800000000000011000000000000000000000000000000000000000000000001";
    assert_eq!(Felt::parse(p), None);
    let below = "0x800000000000011000000000000000000000000000000000000000000000000";
    assert!(Felt::parse(below).is_some());
    assert_eq!(Felt::parse(&format!("0x{}", "0".repeat(65))), None);
}

#[test]
fn build_clause_keeps_order() {
    let c = build_clause("Position", &vec![s("0x2"), s("0x1")]).unwrap();
    assert_eq!(c, clause("Position", &[2, 1]));
}

#[test]
fn from_entity_model() {
    let m = EntityModel { model: s("Moves"), keys: vec![felt(4)] };
    assert_eq!(KeysClause::from(m), clause("Moves", &[4]));
}

#[test]
fn get_entities_query() {
    let q = client().get_entities(10, 3);
    assert_eq!(q.clause, None);
    assert_eq!((q.limit, q.offset), (10, 3));
}

#[test]
fn get_entities_by_keys_scenario() {
    let q = client().get_entities_by_keys("Position", &vec![s("0x1")], 10, 0).unwrap();
    assert_eq!(q.clause, Some(Clause::Keys(clause("Position", &[1]))));
    assert_eq!((q.limit, q.offset), (10, 0));
    let store = vec![Entity {
        hashed_keys: felt(1),
        models: vec![Model {
            name: s("Position"),
            members: vec![Member { name: s("x"), ty: Ty::Primitive(Primitive::U32(Some(5))) }],
        }],
    }];
    let j = parse_entities_as_json_str(&store).unwrap();
    let expected = JsonValue::Object(vec![(
        s("0x1"),
        JsonValue::Object(vec![(
            s("Position"),
            JsonValue::Object(vec![(
                s("x"),
                JsonValue::Object(vec![
                    (s("type"), JsonValue::Str(s("u32"))),
                    (s("value"), JsonValue::Number(5)),
                ]),
            )]),
        )]),
    )]);
    assert_eq!(j, expected);
}

#[test]
fn get_entities_by_keys_bad_key() {
    let r = client().get_entities_by_keys("Position", &vec![s("xyz")], 10, 0);
    assert_eq!(r, Err(ParseError { input: s("xyz"), position: 0 }));
}

#[test]
fn get_model_value_missing_is_null() {
    let c = client().get_model_value("Position", &vec![s("0xdead")]).unwrap();
    assert_eq!(c, clause("Position", &[0xdead]));
    assert_eq!(model_value_json(&None), Ok(JsonValue::Null));
    let v = model_value_json(&Some(Ty::Primitive(Primitive::Bool(Some(false))))).unwrap();
    assert_eq!(
        v,
        JsonValue::Object(vec![
            (s("type"), JsonValue::Str(s("bool"))),
            (s("value"), JsonValue::Bool(false)),
        ])
    );
}

#[test]
fn add_then_remove_leaves_nothing() {
    let mut c = client();
    c.add_models_to_sync(vec![clause("Position", &[1]), clause("Moves", &[1, 2])]);
    assert_eq!(c.sync.clauses.len(), 2);
    c.remove_models_to_sync(&vec![clause("Position", &[1]), clause("Moves", &[1, 2])]);
    assert!(c.sync.clauses.is_empty());
}

#[test]
fn remove_never_added_is_noop() {
    let mut c = client();
    c.add_models_to_sync(vec![clause("Position", &[1])]);
    c.remove_models_to_sync(&vec![clause("Position", &[2]), clause("Moves", &[1])]);
    assert_eq!(c.sync.clauses, vec![clause("Position", &[1])]);
}

#[test]
fn add_twice_is_idempotent() {
    let mut r = SyncRegistry::new();
    r.add(clause("Position", &[1]));
    r.add(clause("Position", &[1]));
    assert_eq!(r.clauses.len(), 1);
    assert!(r.contains(&clause("Position", &[1])));
    assert!(!r.contains(&clause("Position", &[1, 1])));
}

#[test]
fn create_client_with_models() {
    let models = vec![
        EntityModel { model: s("Position"), keys: vec![felt(1)] },
        EntityModel { model: s("Position"), keys: vec![felt(1)] },
        EntityModel { model: s("Moves"), keys: vec![felt(1)] },
    ];
    let c = create_client(models, config("0x1234")).unwrap();
    assert_eq!(c.world_address, felt(0x1234));
    assert_eq!(c.sync.clauses.len(), 2);
    assert_eq!(c.rpc_url, "http://localhost:5050");
}

#[test]
fn create_client_bad_world_address() {
    let r = create_client(vec![], config("nope"));
    assert_eq!(r.err(), Some(ClientError::WorldAddress(s("nope"))));
}

#[test]
fn model_change_target_uses_short_string() {
    let t = client()
        .on_sync_model_change(EntityModel { model: s("Position"), keys: vec![felt(7)] })
        .unwrap();
    let mut expected = [0u8; 32];
    expected[24..].copy_from_slice(b"Position");
    assert_eq!(t.model.bytes, expected);
    assert_eq!(t.keys, vec![felt(7)]);
}

#[test]
fn model_change_bad_names() {
    let long = "a".repeat(32);
    let r = client().on_sync_model_change(EntityModel { model: long.clone(), keys: vec![] });
    assert_eq!(r, Err(ClientError::ModelName(long)));
    let r = client().on_sync_model_change(EntityModel { model: s("Positión"), keys: vec![] });
    assert_eq!(r, Err(ClientError::ModelName(s("Positión"))));
    let ok = "b".repeat(31);
    assert!(client().on_sync_model_change(EntityModel { model: ok, keys: vec![] }).is_ok());
}

#[test]
fn entity_update_ids() {
    assert_eq!(client().on_entity_updated(None), Ok(vec![]));
    assert_eq!(client().on_entity_updated(Some(vec![s("0x2"), s("3")])), Ok(vec![felt(2), felt(3)]));
    assert_eq!(
        client().on_entity_updated(Some(vec![s("0xq")])),
        Err(ParseError { input: s("0xq"), position: 0 })
    );
}

#[test]
fn entity_update_listener_steps() {
    let e = Entity { hashed_keys: felt(0xa), models: vec![] };
    assert_eq!(
        entity_update_action(Some(Some(e))),
        ListenerAction::Deliver(JsonValue::Object(vec![(s("0xa"), JsonValue::Object(vec![]))]))
    );
    assert_eq!(entity_update_action(Some(None)), ListenerAction::Stop);
    assert_eq!(entity_update_action(None), ListenerAction::Stop);
    let bad = Entity {
        hashed_keys: felt(1),
        models: vec![Model { name: s("M"), members: vec![Member { name: s("t"), ty: Ty::Tuple(vec![]) }] }],
    };
    assert_eq!(entity_update_action(Some(Some(bad))), ListenerAction::Stop);
}
