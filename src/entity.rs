use vstd::prelude::*;
use crate::felt::Felt;
use crate::hex::{hex_text, nibbles_of_bytes};
use crate::json::{JsonValue, JsonModel, entries_model, insert_model, object_insert};
use crate::ty::{Member, EncodeError, supported, ty_json, parse_ty_as_json_str};

verus! {

broadcast use vstd::std_specs::vec::group_vec_axioms, vstd::seq::group_seq_axioms;

/// One model attached to an entity: its name and its fields.
#[derive(Debug, PartialEq, Eq)]
pub struct Model {
    pub name: String,
    pub members: Vec<Member>,
}

/// An entity: its identity and the models attached to it.
#[derive(Debug, PartialEq, Eq)]
pub struct Entity {
    pub hashed_keys: Felt,
    pub models: Vec<Model>,
}

/// A model's fields as an object from field name to encoded value.
pub open spec fn fields_json(ms: Seq<Member>) -> Seq<(Seq<char>, JsonModel)>
    decreases ms.len(),
{
    if ms.len() == 0 {
        Seq::empty()
    } else {
        insert_model(
            fields_json(ms.drop_last()),
            ms.last().name@,
            ty_json(ms.last().ty),
        )
    }
}

/// An entity's models as an object from model name to its fields.
pub open spec fn models_json(ms: Seq<Model>) -> Seq<(Seq<char>, JsonModel)>
    decreases ms.len(),
{
    if ms.len() == 0 {
        Seq::empty()
    } else {
        insert_model(
            models_json(ms.drop_last()),
            ms.last().name@,
            JsonModel::Object(fields_json(ms.last().members@)),
        )
    }
}

/// The boundary rendering of an identity.
pub open spec fn identity_text(f: Felt) -> Seq<char> {
    hex_text(nibbles_of_bytes(f.bytes@))
}

/// Entities as an object keyed by identity; a later entity with the same identity
/// replaces an earlier one.
pub open spec fn entities_json(es: Seq<Entity>) -> Seq<(Seq<char>, JsonModel)>
    decreases es.len(),
{
    if es.len() == 0 {
        Seq::empty()
    } else {
        insert_model(
            entities_json(es.drop_last()),
            identity_text(es.last().hashed_keys),
            JsonModel::Object(models_json(es.last().models@)),
        )
    }
}

pub open spec fn model_supported(m: Model) -> bool {
    forall|i: int| 0 <= i < m.members@.len() ==> supported(#[trigger] m.members@[i].ty)
}

pub open spec fn entity_supported(e: Entity) -> bool {
    forall|i: int| 0 <= i < e.models@.len() ==> model_supported(#[trigger] e.models@[i])
}

pub open spec fn entities_supported(es: Seq<Entity>) -> bool {
    forall|i: int| 0 <= i < es.len() ==> entity_supported(#[trigger] es[i])
}

fn fields_as_json(ms: &Vec<Member>) -> (r: Result<Vec<(String, JsonValue)>, EncodeError>)
    ensures
        r is Ok <==> forall|i: int| 0 <= i < ms@.len() ==> supported(#[trigger] ms@[i].ty),
        r matches Ok(es) ==> entries_model(es@) == fields_json(ms@),
{
    let mut out: Vec<(String, JsonValue)> = Vec::new();
    let mut i: usize = 0;
    while i < ms.len()
        invariant
            0 <= i <= ms@.len(),
            entries_model(out@) == fields_json(ms@.subrange(0, i as int)),
            forall|j: int| 0 <= j < i ==> supported(#[trigger] ms@[j].ty),
        decreases ms@.len() - i,
    {
        match parse_ty_as_json_str(&ms[i].ty) {
            Err(e) => return Err(e),
            Ok(j) => {
                assert(ms@.subrange(0, i + 1).drop_last() =~= ms@.subrange(0, i as int));
                object_insert(&mut out, ms[i].name.clone(), j);
                i = i + 1;
            },
        }
    }
    assert(ms@.subrange(0, ms@.len() as int) =~= ms@);
    Ok(out)
}

fn models_as_json(ms: &Vec<Model>) -> (r: Result<Vec<(String, JsonValue)>, EncodeError>)
    ensures
        r is Ok <==> forall|i: int| 0 <= i < ms@.len() ==> model_supported(#[trigger] ms@[i]),
        r matches Ok(es) ==> entries_model(es@) == models_json(ms@),
{
    let mut out: Vec<(String, JsonValue)> = Vec::new();
    let mut i: usize = 0;
    while i < ms.len()
        invariant
            0 <= i <= ms@.len(),
            entries_model(out@) == models_json(ms@.subrange(0, i as int)),
            forall|j: int| 0 <= j < i ==> model_supported(#[trigger] ms@[j]),
        decreases ms@.len() - i,
    {
        match fields_as_json(&ms[i].members) {
            Err(e) => return Err(e),
            Ok(fs) => {
                assert(ms@.subrange(0, i + 1).drop_last() =~= ms@.subrange(0, i as int));
                object_insert(&mut out, ms[i].name.clone(), JsonValue::Object(fs));
                i = i + 1;
            },
        }
    }
    assert(ms@.subrange(0, ms@.len() as int) =~= ms@);
    Ok(out)
}

/// Encodes entities as an object keyed by their identities in `0x` hexadecimal, each
/// holding an object from model name to that model's fields and their encoded values.
pub fn parse_entities_as_json_str(entities: &Vec<Entity>) -> (r: Result<JsonValue, EncodeError>)
    ensures
        r is Ok <==> entities_supported(entities@),
        r matches Ok(j) ==> j.model() == JsonModel::Object(entities_json(entities@)),
{
    let mut out: Vec<(String, JsonValue)> = Vec::new();
    let mut i: usize = 0;
    while i < entities.len()
        invariant
            0 <= i <= entities@.len(),
            entries_model(out@) == entities_json(entities@.subrange(0, i as int)),
            forall|j: int| 0 <= j < i ==> entity_supported(#[trigger] entities@[j]),
        decreases entities@.len() - i,
    {
        match models_as_json(&entities[i].models) {
            Err(e) => return Err(e),
            Ok(ms) => {
                assert(entities@.subrange(0, i + 1).drop_last() =~= entities@.subrange(0, i as int));
                let key = entities[i].hashed_keys.to_hex_string();
                object_insert(&mut out, key, JsonValue::Object(ms));
                i = i + 1;
            },
        }
    }
    assert(entities@.subrange(0, entities@.len() as int) =~= entities@);
    Ok(JsonValue::Object(out))
}

} // verus!
