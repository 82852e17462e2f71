use vstd::prelude::*;
use crate::json::{JsonValue, JsonModel, entries_model, tagged, lemma_entries_model_push, object_get, lemma_object_get_index};
use crate::primitive::{Primitive, primitive_json, primitive_name, primitive_type_name, primitive_value_json};

verus! {

broadcast use vstd::std_specs::vec::group_vec_axioms, vstd::seq::group_seq_axioms;

/// A named field of a struct or a model.
#[derive(Debug, PartialEq, Eq)]
pub struct Member {
    pub name: String,
    pub ty: Ty,
}

#[derive(Debug, PartialEq, Eq)]
pub struct StructTy {
    pub name: String,
    pub children: Vec<Member>,
}

#[derive(Debug, Clone, PartialEq, Eq)]
pub struct EnumTy {
    pub name: String,
    /// The index of the selected option, if one is selected.
    pub option: Option<u8>,
}

/// A schema-described value.
#[derive(Debug, PartialEq, Eq)]
pub enum Ty {
    Primitive(Primitive),
    Struct(StructTy),
    Enum(EnumTy),
    Tuple(Vec<Ty>),
}

/// Why a value could not be encoded.
#[derive(PartialEq, Eq, Structural, Debug, Clone, Copy)]
pub enum EncodeError {
    /// A tuple-shaped value, which has no generic form.
    UnsupportedTuple,
}

/// Whether the value holds no tuple at any depth.
pub open spec fn supported(t: Ty) -> bool
    decreases t,
{
    match t {
        Ty::Struct(s) => members_supported(s.children@),
        Ty::Tuple(_) => false,
        _ => true,
    }
}

pub open spec fn members_supported(ms: Seq<Member>) -> bool
    decreases ms,
{
    if ms.len() == 0 {
        true
    } else {
        members_supported(ms.subrange(0, ms.len() - 1)) && supported(ms[ms.len() - 1].ty)
    }
}

/// The generic form of a value: `{type, value}`, with a struct's fields in order under
/// their names and an enum's selected option as its index.
pub open spec fn ty_json(t: Ty) -> JsonModel
    decreases t,
{
    match t {
        Ty::Primitive(p) => tagged(primitive_name(p), primitive_json(p)),
        Ty::Struct(s) => tagged("struct"@, JsonModel::Object(members_json(s.children@))),
        Ty::Enum(e) => tagged(
            "enum"@,
            match e.option {
                Some(o) => JsonModel::Number(o as nat),
                None => JsonModel::Null,
            },
        ),
        Ty::Tuple(_) => JsonModel::Null,
    }
}

/// Each member's name with the generic form of its value, in order.
pub open spec fn members_json(ms: Seq<Member>) -> Seq<(Seq<char>, JsonModel)>
    decreases ms,
{
    if ms.len() == 0 {
        Seq::empty()
    } else {
        members_json(ms.subrange(0, ms.len() - 1)).push(
            (ms[ms.len() - 1].name@, ty_json(ms[ms.len() - 1].ty)),
        )
    }
}

pub proof fn lemma_members_supported(ms: Seq<Member>)
    ensures
        members_supported(ms) <==> forall|i: int| 0 <= i < ms.len() ==> supported(#[trigger] ms[i].ty),
    decreases ms.len(),
{
    if ms.len() > 0 {
        let init = ms.subrange(0, ms.len() - 1);
        lemma_members_supported(init);
        assert forall|i: int| 0 <= i < ms.len() - 1 implies #[trigger] init[i] == ms[i] by {}
        if members_supported(ms) {
            assert forall|i: int| 0 <= i < ms.len() implies supported(#[trigger] ms[i].ty) by {
                if i < ms.len() - 1 {
                    assert(init[i] == ms[i]);
                }
            }
        }
        if forall|i: int| 0 <= i < ms.len() ==> supported(#[trigger] ms[i].ty) {
            assert forall|i: int| 0 <= i < init.len() implies supported(#[trigger] init[i].ty) by {
                assert(init[i] == ms[i]);
            }
            assert(supported(ms[ms.len() - 1].ty));
        }
    }
}

pub proof fn lemma_members_json_index(ms: Seq<Member>)
    ensures
        members_json(ms).len() == ms.len(),
        forall|i: int|
            0 <= i < ms.len() ==> #[trigger] members_json(ms)[i] == (ms[i].name@, ty_json(ms[i].ty)),
    decreases ms.len(),
{
    if ms.len() > 0 {
        let init = ms.subrange(0, ms.len() - 1);
        lemma_members_json_index(init);
        assert forall|i: int| 0 <= i < ms.len() - 1 implies #[trigger] init[i] == ms[i] by {}
    }
}

/// Encodes a value into its generic `{type, value}` form; a tuple anywhere in it is refused.
pub fn parse_ty_as_json_str(ty: &Ty) -> (r: Result<JsonValue, EncodeError>)
    ensures
        r is Ok <==> supported(*ty),
        r matches Ok(j) ==> j.model() == ty_json(*ty),
        r matches Err(e) ==> e == EncodeError::UnsupportedTuple,
    decreases ty,
{
    match ty {
        Ty::Primitive(p) => Ok(JsonValue::tagged(primitive_type_name(p), primitive_value_json(p))),
        Ty::Struct(s) => {
            let ghost ms = s.children@;
            let mut out: Vec<(String, JsonValue)> = Vec::new();
            let mut i: usize = 0;
            while i < s.children.len()
                invariant
                    0 <= i <= ms.len(),
                    ms == s.children@,
                    *ty == Ty::Struct(*s),
                    entries_model(out@) == members_json(ms.subrange(0, i as int)),
                    members_supported(ms.subrange(0, i as int)),
                decreases ms.len() - i,
            {
                let m = &s.children[i];
                proof {
                    assert(decreases_to!(*ty => s.children));
                    assert(decreases_to!(s.children => s.children[i as int]));
                }
                match parse_ty_as_json_str(&m.ty) {
                    Err(e) => {
                        proof {
                            lemma_members_supported(ms);
                        }
                        return Err(e);
                    },
                    Ok(j) => {
                        let name = m.name.clone();
                        proof {
                            lemma_entries_model_push(out@, (name, j));
                            assert(ms.subrange(0, i + 1).subrange(0, i as int) =~= ms.subrange(0, i as int));
                        }
                        out.push((name, j));
                        i = i + 1;
                    },
                }
            }
            assert(ms.subrange(0, ms.len() as int) =~= ms);
            let ghost om = entries_model(out@);
            let r = JsonValue::tagged(String::from_str("struct"), JsonValue::Object(out));
            Ok(r)
        },
        Ty::Enum(e) => {
            let v = match e.option {
                Some(o) => JsonValue::Number(o as u64),
                None => JsonValue::Null,
            };
            Ok(JsonValue::tagged(String::from_str("enum"), v))
        },
        Ty::Tuple(_) => Err(EncodeError::UnsupportedTuple),
    }
}


/// No two members share a name.
pub open spec fn names_unique(ms: Seq<Member>) -> bool {
    forall|i: int, j: int| 0 <= i < j < ms.len() ==> (#[trigger] ms[i]).name@ != (#[trigger] ms[j]).name@
}

/// Encoding a struct and reading its value back by field name gives each child's encoding,
/// with the fields in declaration order.
pub proof fn lemma_struct_round_trip(s: StructTy)
    requires
        names_unique(s.children@),
    ensures
        ty_json(Ty::Struct(s)) == tagged("struct"@, JsonModel::Object(members_json(s.children@))),
        members_json(s.children@).len() == s.children@.len(),
        forall|i: int|
            0 <= i < s.children@.len() ==> (#[trigger] members_json(s.children@)[i]).0
                == s.children@[i].name@,
        forall|i: int|
            0 <= i < s.children@.len() ==> object_get(
                members_json(s.children@),
                #[trigger] s.children@[i].name@,
            ) == Some(ty_json(s.children@[i].ty)),
{
    let ms = s.children@;
    lemma_members_json_index(ms);
    assert forall|i: int| 0 <= i < ms.len() implies object_get(
        members_json(ms),
        #[trigger] ms[i].name@,
    ) == Some(ty_json(ms[i].ty)) by {
        assert forall|j: int| 0 <= j < i implies members_json(ms)[j].0 != members_json(ms)[i].0 by {
            assert(ms[j].name@ != ms[i].name@);
        }
        lemma_object_get_index(members_json(ms), i);
    }
}

/// Encoding the same value twice gives the same result.
pub proof fn lemma_encoding_is_deterministic(t: Ty, a: JsonValue, b: JsonValue)
    requires
        a.model() == ty_json(t),
        b.model() == ty_json(t),
    ensures
        a.model() == b.model(),
{
}

} // verus!
