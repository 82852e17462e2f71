use vstd::prelude::*;
use crate::clause::{
    EntityModel, KeysClause, Clause, Query, ParseError, parse_keys, build_clause,
    is_literal,
};
use crate::entity::{Entity, parse_entities_as_json_str, entities_supported, entities_json};
use crate::felt::{Felt, parses, literal_value, short_string_bytes, is_short_string};
use crate::json::{JsonValue, JsonModel};
use crate::sync::{SyncRegistry, ClauseKey, keys_of, lemma_keys_of_push};
use crate::ty::{Ty, EncodeError, supported, ty_json, parse_ty_as_json_str};

verus! {

broadcast use vstd::std_specs::vec::group_vec_axioms, vstd::seq::group_seq_axioms;

/// Where the client connects: the node, the indexer, and the world contract.
#[derive(Debug, Clone, PartialEq, Eq)]
pub struct ClientConfig {
    pub rpc_url: String,
    pub torii_url: String,
    pub world_address: String,
}

/// Why a client operation was refused.
#[derive(Debug, Clone, PartialEq, Eq)]
pub enum ClientError {
    /// A key that is not a field element.
    Key(ParseError),
    /// A world address that is not a field element.
    WorldAddress(String),
    /// A model name that is not a short ASCII string.
    ModelName(String),
    /// A value with no generic form.
    Encode(EncodeError),
}

/// A client: where it connects, and the clauses it keeps up to date.
pub struct Client {
    pub rpc_url: String,
    pub torii_url: String,
    pub world_address: Felt,
    pub sync: SyncRegistry,
}

/// What a change listener watches: a model, by the field element of its name, and keys.
#[derive(Debug, Clone, PartialEq, Eq)]
pub struct ListenerTarget {
    pub model: Felt,
    pub keys: Vec<Felt>,
}

/// What an update listener does with the next item of its stream.
#[derive(Debug, PartialEq, Eq)]
pub enum ListenerAction {
    /// Hand this value to the callback and wait for the next item.
    Deliver(JsonValue),
    /// End the listener.
    Stop,
}

/// The clauses of the given models.
pub open spec fn models_as_clauses(ms: Seq<EntityModel>) -> Seq<KeysClause> {
    ms.map_values(|m: EntityModel| KeysClause { model: m.model, keys: m.keys })
}

/// Builds a client from its configuration and the models to keep up to date from the start.
pub fn create_client(initial_models_to_sync: Vec<EntityModel>, config: ClientConfig) -> (r: Result<
    Client,
    ClientError,
>)
    ensures
        parses(config.world_address@) ==> r is Ok,
        r matches Ok(c) ==> c.sync.wf() && c.sync@ == keys_of(
            models_as_clauses(initial_models_to_sync@),
        ) && c.rpc_url@ == config.rpc_url@ && c.torii_url@ == config.torii_url@ && (is_literal(
            config.world_address@,
        ) ==> c.world_address.value() == literal_value(config.world_address@)),
        r matches Err(e) ==> e matches ClientError::WorldAddress(s) && s@ == config.world_address@
            && !parses(config.world_address@),
{
    let ClientConfig { rpc_url, torii_url, world_address } = config;
    let addr = match Felt::parse(world_address.as_str()) {
        Some(f) => f,
        None => {
            return Err(ClientError::WorldAddress(world_address));
        },
    };
    let mut sync = SyncRegistry::new();
    let mut models = initial_models_to_sync;
    let ghost all = models_as_clauses(models@);
    while models.len() > 0
        invariant
            sync.wf(),
            sync@.union(keys_of(models_as_clauses(models@))) == keys_of(all),
        decreases models@.len(),
    {
        let ghost before = models@;
        let m = models.pop().unwrap();
        proof {
            assert(before == models@.push(m));
            assert(models_as_clauses(before) =~= models_as_clauses(models@).push(
                KeysClause { model: m.model, keys: m.keys },
            ));
            lemma_keys_of_push(models_as_clauses(models@), KeysClause { model: m.model, keys: m.keys });
        }
        let c = KeysClause::from(m);
        sync.add(c);
        proof {
            assert(sync@.union(keys_of(models_as_clauses(models@))) =~= keys_of(all));
        }
    }
    assert(models_as_clauses(models@) =~= Seq::<KeysClause>::empty());
    assert(keys_of(models_as_clauses(models@)) =~= Set::<ClauseKey>::empty());
    assert(sync@ =~= keys_of(all));
    Ok(Client { rpc_url, torii_url, world_address: addr, sync })
}

/// The generic form of a model's value; a missing value is null.
pub fn model_value_json(value: &Option<Ty>) -> (r: Result<JsonValue, EncodeError>)
    ensures
        value is None ==> (r matches Ok(j) && j.model() == JsonModel::Null),
        *value matches Some(t) ==> (r is Ok <==> supported(t)) && (r matches Ok(j) ==> j.model()
            == ty_json(t)),
{
    match value {
        Some(t) => parse_ty_as_json_str(t),
        None => Ok(JsonValue::Null),
    }
}

/// What an update listener does with the next item of its stream: an entity is encoded
/// as a one-entity map and delivered; an ended stream, a missing entity or one that
/// cannot be encoded ends the listener.
pub fn entity_update_action(item: Option<Option<Entity>>) -> (r: ListenerAction)
    ensures
        item matches Some(Some(e)) ==> (entities_supported(seq![e]) ==> (r matches ListenerAction::Deliver(
            j,
        ) && j.model() == JsonModel::Object(entities_json(seq![e])))),
        item matches Some(Some(e)) ==> (!entities_supported(seq![e]) ==> r is Stop),
        (item is None || item matches Some(None)) ==> r is Stop,
{
    match item {
        Some(Some(e)) => {
            let mut v: Vec<Entity> = Vec::new();
            v.push(e);
            assert(v@ =~= seq![e]);
            match parse_entities_as_json_str(&v) {
                Ok(j) => ListenerAction::Deliver(j),
                Err(_) => ListenerAction::Stop,
            }
        },
        _ => ListenerAction::Stop,
    }
}

impl Client {
    /// The query for every entity, one page.
    pub fn get_entities(&self, limit: u32, offset: u32) -> (r: Query)
        ensures
            r.clause is None,
            r.limit == limit,
            r.offset == offset,
    {
        Query { clause: None, limit, offset }
    }

    /// The query for one page of the entities of a model with the given keys.
    pub fn get_entities_by_keys(&self, model: &str, keys: &Vec<String>, limit: u32, offset: u32) -> (r:
        Result<Query, ParseError>)
        ensures
            (forall|i: int| 0 <= i < keys@.len() ==> parses(#[trigger] keys@[i]@)) ==> r is Ok,
            r matches Ok(q) ==> (q.limit == limit && q.offset == offset && (q.clause matches Some(
                Clause::Keys(c),
            ) && c.model@ == model@ && c.keys@.len() == keys@.len() && forall|i: int|
                0 <= i < keys@.len() && is_literal(#[trigger] keys@[i]@) ==> c.keys@[i].value()
                    == literal_value(keys@[i]@))),
            r matches Err(e) ==> e.position < keys@.len() && e.input@ == keys@[e.position as int]@
                && !parses(keys@[e.position as int]@),
    {
        match build_clause(model, keys) {
            Ok(c) => Ok(Query { clause: Some(Clause::Keys(c)), limit, offset }),
            Err(e) => Err(e),
        }
    }

    /// The clause that looks up one model of the entity with the given keys.
    pub fn get_model_value(&self, model: &str, keys: &Vec<String>) -> (r: Result<
        KeysClause,
        ParseError,
    >)
        ensures
            (forall|i: int| 0 <= i < keys@.len() ==> parses(#[trigger] keys@[i]@)) ==> r is Ok,
            r matches Ok(c) ==> c.model@ == model@ && c.keys@.len() == keys@.len() && forall|i: int|
                0 <= i < keys@.len() && is_literal(#[trigger] keys@[i]@) ==> c.keys@[i].value()
                    == literal_value(keys@[i]@),
            r matches Err(e) ==> e.position < keys@.len() && e.input@ == keys@[e.position as int]@
                && !parses(keys@[e.position as int]@),
    {
        build_clause(model, keys)
    }

    /// Starts keeping the given clauses up to date; those already kept stay as they are.
    pub fn add_models_to_sync(&mut self, models: Vec<KeysClause>)
        requires
            old(self).sync.wf(),
        ensures
            final(self).sync.wf(),
            final(self).sync@ == old(self).sync@.union(keys_of(models@)),
            final(self).world_address == old(self).world_address,
    {
        let mut models = models;
        let ghost all = models@;
        let ghost start = self.sync@;
        while models.len() > 0
            invariant
                self.sync.wf(),
                self.sync@.union(keys_of(models@)) == start.union(keys_of(all)),
                self.world_address == old(self).world_address,
            decreases models@.len(),
        {
            let ghost before = models@;
            let c = models.pop().unwrap();
            proof {
                assert(before == models@.push(c));
                lemma_keys_of_push(models@, c);
            }
            self.sync.add(c);
            proof {
                assert(self.sync@.union(keys_of(models@)) =~= start.union(keys_of(all)));
            }
        }
        assert(keys_of(models@) =~= Set::<ClauseKey>::empty());
        assert(self.sync@ =~= start.union(keys_of(all)));
    }

    /// Stops keeping the given clauses up to date; those not kept are ignored.
    pub fn remove_models_to_sync(&mut self, models: &Vec<KeysClause>)
        requires
            old(self).sync.wf(),
        ensures
            final(self).sync.wf(),
            final(self).sync@ == old(self).sync@.difference(keys_of(models@)),
            final(self).world_address == old(self).world_address,
    {
        let ghost start = self.sync@;
        let mut i: usize = 0;
        assert(keys_of(models@.subrange(0, 0)) =~= Set::<ClauseKey>::empty());
        assert(start =~= start.difference(Set::<ClauseKey>::empty()));
        while i < models.len()
            invariant
                0 <= i <= models@.len(),
                self.sync.wf(),
                self.sync@ == start.difference(keys_of(models@.subrange(0, i as int))),
                self.world_address == old(self).world_address,
            decreases models@.len() - i,
        {
            self.sync.remove(&models[i]);
            proof {
                assert(models@.subrange(0, i + 1) =~= models@.subrange(0, i as int).push(models@[i as int]));
                lemma_keys_of_push(models@.subrange(0, i as int), models@[i as int]);
                assert(self.sync@ =~= start.difference(keys_of(models@.subrange(0, i + 1))));
            }
            i = i + 1;
        }
        assert(models@.subrange(0, models@.len() as int) =~= models@);
    }

    /// What a change listener for a model and keys watches: the model's name as a field
    /// element, and the keys. A name that is not ASCII or is longer than 31 bytes is refused.
    pub fn on_sync_model_change(&self, model: EntityModel) -> (r: Result<ListenerTarget, ClientError>)
        ensures
            r is Ok <==> is_short_string(model.model@),
            r matches Ok(t) ==> t.model.bytes@ == short_string_bytes(vstd::utf8::encode_utf8(model.model@))
                && t.keys@ == model.keys@,
            r matches Err(e) ==> e matches ClientError::ModelName(s) && s@ == model.model@,
    {
        let EntityModel { model: name, keys } = model;
        match Felt::from_short_string(name.as_str()) {
            Some(f) => Ok(ListenerTarget { model: f, keys }),
            None => Err(ClientError::ModelName(name)),
        }
    }

    /// The identities an update listener is limited to; none given means every entity.
    pub fn on_entity_updated(&self, ids: Option<Vec<String>>) -> (r: Result<Vec<Felt>, ParseError>)
        ensures
            ids is None ==> (r matches Ok(v) && v@.len() == 0),
            ids matches Some(ks) ==> ((forall|i: int| 0 <= i < ks@.len() ==> parses(#[trigger] ks@[i]@)) ==> r is Ok),
            ids matches Some(ks) ==> (r matches Ok(v) ==> v@.len() == ks@.len() && forall|i: int|
                0 <= i < ks@.len() && is_literal(#[trigger] ks@[i]@) ==> v@[i].value()
                    == literal_value(ks@[i]@)),
            ids matches Some(ks) ==> (r matches Err(e) ==> e.position < ks@.len() && e.input@ == ks@[e.position as int]@
                && !parses(ks@[e.position as int]@)),
    {
        match ids {
            None => Ok(Vec::new()),
            Some(ks) => parse_keys(&ks),
        }
    }
}

} // verus!
