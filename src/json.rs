use vstd::prelude::*;

verus! {

broadcast use vstd::std_specs::vec::group_vec_axioms, vstd::seq::group_seq_axioms;

/// A generic, language-agnostic value: the shape handed to the host.
#[derive(Debug, PartialEq, Eq)]
pub enum JsonValue {
    Null,
    Bool(bool),
    Number(u64),
    Str(String),
    /// An object whose entries keep the order in which they were written.
    Object(Vec<(String, JsonValue)>),
}

/// The mathematical model of a `JsonValue`.
pub enum JsonModel {
    Null,
    Bool(bool),
    Number(nat),
    Str(Seq<char>),
    Object(Seq<(Seq<char>, JsonModel)>),
}

pub open spec fn entries_model(es: Seq<(String, JsonValue)>) -> Seq<(Seq<char>, JsonModel)>
    decreases es,
{
    if es.len() == 0 {
        Seq::empty()
    } else {
        entries_model(es.subrange(0, es.len() - 1)).push(
            (es[es.len() - 1].0@, es[es.len() - 1].1.model()),
        )
    }
}

impl JsonValue {
    pub open spec fn model(self) -> JsonModel
        decreases self,
    {
        match self {
            JsonValue::Null => JsonModel::Null,
            JsonValue::Bool(b) => JsonModel::Bool(b),
            JsonValue::Number(n) => JsonModel::Number(n as nat),
            JsonValue::Str(s) => JsonModel::Str(s@),
            JsonValue::Object(es) => JsonModel::Object(entries_model(es@)),
        }
    }
}


/// The object model of a value tagged with its type name: `{type, value}`.
pub open spec fn tagged(tag: Seq<char>, value: JsonModel) -> JsonModel {
    JsonModel::Object(seq![("type"@, JsonModel::Str(tag)), ("value"@, value)])
}

pub proof fn lemma_entries_model_push(es: Seq<(String, JsonValue)>, e: (String, JsonValue))
    ensures
        entries_model(es.push(e)) == entries_model(es).push((e.0@, e.1.model())),
{
    assert(es.push(e).subrange(0, es.len() as int) =~= es);
}

pub proof fn lemma_entries_model_index(es: Seq<(String, JsonValue)>)
    ensures
        entries_model(es).len() == es.len(),
        forall|i: int|
            0 <= i < es.len() ==> #[trigger] entries_model(es)[i] == (es[i].0@, es[i].1.model()),
    decreases es.len(),
{
    if es.len() > 0 {
        lemma_entries_model_index(es.subrange(0, es.len() - 1));
    }
}

impl JsonValue {
    /// The object `{type, value}`.
    pub fn tagged(tag: String, value: JsonValue) -> (r: JsonValue)
        ensures
            r.model() == tagged(tag@, value.model()),
    {
        let mut es: Vec<(String, JsonValue)> = Vec::new();
        let t = String::from_str("type");
        let v = String::from_str("value");
        let ghost vm = value.model();
        proof {
            lemma_entries_model_push(es@, (t, JsonValue::Str(tag)));
        }
        es.push((t, JsonValue::Str(tag)));
        proof {
            lemma_entries_model_push(es@, (v, value));
        }
        es.push((v, value));
        let r = JsonValue::Object(es);
        assert(entries_model(es@) =~= seq![("type"@, JsonModel::Str(tag@)), ("value"@, vm)]);
        r
    }
}


/// The entries after writing `v` under `k`: an existing entry for `k` is replaced in place,
/// otherwise the entry is added at the end.
pub open spec fn insert_model(
    es: Seq<(Seq<char>, JsonModel)>,
    k: Seq<char>,
    v: JsonModel,
) -> Seq<(Seq<char>, JsonModel)>
    decreases es.len(),
{
    if es.len() == 0 {
        seq![(k, v)]
    } else if es[0].0 == k {
        es.update(0, (k, v))
    } else {
        seq![es[0]] + insert_model(es.drop_first(), k, v)
    }
}

proof fn lemma_insert_model_found(es: Seq<(Seq<char>, JsonModel)>, k: Seq<char>, v: JsonModel, i: int)
    requires
        0 <= i < es.len(),
        es[i].0 == k,
        forall|j: int| 0 <= j < i ==> es[j].0 != k,
    ensures
        insert_model(es, k, v) == es.update(i, (k, v)),
    decreases i,
{
    if i > 0 {
        lemma_insert_model_found(es.drop_first(), k, v, i - 1);
        assert(seq![es[0]] + es.drop_first().update(i - 1, (k, v)) =~= es.update(i, (k, v)));
    }
}

proof fn lemma_insert_model_absent(es: Seq<(Seq<char>, JsonModel)>, k: Seq<char>, v: JsonModel)
    requires
        forall|j: int| 0 <= j < es.len() ==> es[j].0 != k,
    ensures
        insert_model(es, k, v) == es.push((k, v)),
    decreases es.len(),
{
    if es.len() > 0 {
        lemma_insert_model_absent(es.drop_first(), k, v);
        assert(seq![es[0]] + es.drop_first().push((k, v)) =~= es.push((k, v)));
    }
}

/// Writes `v` under `k` in the entries of an object, replacing an earlier entry for `k`.
pub fn object_insert(es: &mut Vec<(String, JsonValue)>, k: String, v: JsonValue)
    ensures
        entries_model(final(es)@) == insert_model(entries_model(old(es)@), k@, v.model()),
{
    let ghost m0 = entries_model(es@);
    proof {
        lemma_entries_model_index(es@);
    }
    let mut i: usize = 0;
    while i < es.len()
        invariant
            0 <= i <= es@.len(),
            es@ == old(es)@,
            m0 == entries_model(es@),
            m0.len() == es@.len(),
            forall|j: int| 0 <= j < es@.len() ==> #[trigger] m0[j] == (es@[j].0@, es@[j].1.model()),
            forall|j: int| 0 <= j < i ==> m0[j].0 != k@,
        decreases es@.len() - i,
    {
        assert(m0[i as int] == (es@[i as int].0@, es@[i as int].1.model()));
        if es[i].0 == k {
            let ghost vm = v.model();
            proof {
                lemma_insert_model_found(m0, k@, vm, i as int);
            }
            es.set(i, (k, v));
            proof {
                lemma_entries_model_index(es@);
                assert(entries_model(es@) =~= m0.update(i as int, (k@, vm)));
            }
            return;
        }
        i = i + 1;
    }
    proof {
        lemma_insert_model_absent(m0, k@, v.model());
        lemma_entries_model_push(es@, (k, v));
    }
    es.push((k, v));
}


/// The value of the first entry under `k`, if any.
pub open spec fn object_get(es: Seq<(Seq<char>, JsonModel)>, k: Seq<char>) -> Option<JsonModel>
    decreases es.len(),
{
    if es.len() == 0 {
        None
    } else if es[0].0 == k {
        Some(es[0].1)
    } else {
        object_get(es.drop_first(), k)
    }
}

pub proof fn lemma_object_get_index(es: Seq<(Seq<char>, JsonModel)>, i: int)
    requires
        0 <= i < es.len(),
        forall|j: int| 0 <= j < i ==> es[j].0 != es[i].0,
    ensures
        object_get(es, es[i].0) == Some(es[i].1),
    decreases i,
{
    if i > 0 {
        lemma_object_get_index(es.drop_first(), i - 1);
    }
}

} // verus!
