use vstd::prelude::*;
use crate::felt::{Felt, parses, is_dec_literal, is_hex_literal, literal_value};

verus! {

broadcast use vstd::std_specs::vec::group_vec_axioms, vstd::seq::group_seq_axioms;

/// A model name with the keys of one of its entities, as a caller supplies it.
#[derive(Debug, Clone, PartialEq, Eq)]
pub struct EntityModel {
    pub model: String,
    pub keys: Vec<Felt>,
}

/// Selects the entities of one model addressed by an exact key tuple.
#[derive(Debug, Clone, PartialEq, Eq)]
pub struct KeysClause {
    pub model: String,
    pub keys: Vec<Felt>,
}

impl From<EntityModel> for KeysClause {
    fn from(value: EntityModel) -> (r: KeysClause) {
        KeysClause { model: value.model, keys: value.keys }
    }
}

impl vstd::std_specs::convert::FromSpecImpl<EntityModel> for KeysClause {
    open spec fn obeys_from_spec() -> bool {
        true
    }

    open spec fn from_spec(v: EntityModel) -> KeysClause {
        KeysClause { model: v.model, keys: v.keys }
    }
}

/// A selection predicate over entities.
#[derive(Debug, Clone, PartialEq, Eq)]
pub enum Clause {
    Keys(KeysClause),
}

/// A paginated query; no clause means every entity.
#[derive(Debug, Clone, PartialEq, Eq)]
pub struct Query {
    pub clause: Option<Clause>,
    pub limit: u32,
    pub offset: u32,
}

/// A key that is not a field element, with its text and position.
#[derive(Debug, Clone, PartialEq, Eq)]
pub struct ParseError {
    pub input: String,
    pub position: usize,
}

/// What a clause selects, as plain values: the model name and each key's bytes.
pub open spec fn clause_key(c: KeysClause) -> (Seq<char>, Seq<Seq<u8>>) {
    (c.model@, c.keys@.map_values(|f: Felt| f.bytes@))
}

/// Whether a literal is an integer of the field written in decimal or `0x` hexadecimal.
pub open spec fn is_literal(s: Seq<char>) -> bool {
    is_dec_literal(s) || is_hex_literal(s)
}

/// Reads each key as a field element; the first key that is not one is reported with its text
/// and position.
pub fn parse_keys(keys: &Vec<String>) -> (r: Result<Vec<Felt>, ParseError>)
    ensures
        (forall|i: int| 0 <= i < keys@.len() ==> parses(#[trigger] keys@[i]@)) ==> r is Ok,
        r matches Ok(v) ==> v@.len() == keys@.len() && forall|i: int|
            0 <= i < keys@.len() && is_literal(#[trigger] keys@[i]@) ==> v@[i].value()
                == literal_value(keys@[i]@),
        r matches Err(e) ==> e.position < keys@.len() && e.input@ == keys@[e.position as int]@
            && !parses(keys@[e.position as int]@),
{
    let mut out: Vec<Felt> = Vec::new();
    let mut i: usize = 0;
    while i < keys.len()
        invariant
            0 <= i <= keys@.len(),
            out@.len() == i,
            forall|j: int|
                0 <= j < i && is_literal(#[trigger] keys@[j]@) ==> out@[j].value() == literal_value(
                    keys@[j]@,
                ),
        decreases keys@.len() - i,
    {
        match Felt::parse(keys[i].as_str()) {
            Some(f) => {
                out.push(f);
            },
            None => {
                return Err(ParseError { input: keys[i].clone(), position: i });
            },
        }
        i = i + 1;
    }
    Ok(out)
}

/// Builds the clause for a model and the boundary text of its keys.
pub fn build_clause(model: &str, keys: &Vec<String>) -> (r: Result<KeysClause, ParseError>)
    ensures
        (forall|i: int| 0 <= i < keys@.len() ==> parses(#[trigger] keys@[i]@)) ==> r is Ok,
        r matches Ok(c) ==> c.model@ == model@ && c.keys@.len() == keys@.len() && forall|i: int|
            0 <= i < keys@.len() && is_literal(#[trigger] keys@[i]@) ==> c.keys@[i].value()
                == literal_value(keys@[i]@),
        r matches Err(e) ==> e.position < keys@.len() && e.input@ == keys@[e.position as int]@
            && !parses(keys@[e.position as int]@),
{
    match parse_keys(keys) {
        Ok(ks) => Ok(KeysClause { model: model.to_owned(), keys: ks }),
        Err(e) => Err(e),
    }
}

} // verus!
