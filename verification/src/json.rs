//! The decoder's output: a plain JSON value tree.  Numbers keep the exact
//! form the format stores: self-contained 27-bit integers stay integers,
//! and out-of-line doubles are carried as their IEEE-754 bit pattern, so
//! that the tree itself never holds a machine float.

use vstd::prelude::*;

verus! {

/// A decoded JSON value.  `Double` holds the bit pattern of a finite
/// IEEE-754 double; `Object` keeps entries in encounter order, duplicate
/// keys preserved as the document gives them.
#[derive(Debug, PartialEq, Eq)]
pub enum JsonValue {
    Null,
    Bool(bool),
    Int(i32),
    Double(u64),
    Text(String),
    Array(Vec<JsonValue>),
    Object(Vec<(String, JsonValue)>),
}

/// Mathematical mirror of `JsonValue`.
pub ghost enum JsonModel {
    Null,
    Bool { b: bool },
    Int { i: int },
    Double { bits: u64 },
    Text { s: Seq<char> },
    Array { items: Seq<JsonModel> },
    Object { entries: Seq<(Seq<char>, JsonModel)> },
}

/// The models of a sequence of JSON values, element by element.
pub open spec fn json_seq_model(vs: Seq<JsonValue>) -> Seq<JsonModel>
    decreases vs,
{
    Seq::new(
        vs.len(),
        |i: int|
            if 0 <= i < vs.len() {
                vs[i].model()
            } else {
                JsonModel::Null
            },
    )
}

/// The models of a sequence of object entries, element by element.
pub open spec fn json_entries_model(es: Seq<(String, JsonValue)>) -> Seq<(Seq<char>, JsonModel)>
    decreases es,
{
    Seq::new(
        es.len(),
        |i: int|
            if 0 <= i < es.len() {
                (es[i].0@, es[i].1.model())
            } else {
                (Seq::empty(), JsonModel::Null)
            },
    )
}

impl JsonValue {
    pub open spec fn model(self) -> JsonModel
        decreases self,
    {
        match self {
            JsonValue::Null => JsonModel::Null,
            JsonValue::Bool(b) => JsonModel::Bool { b },
            JsonValue::Int(i) => JsonModel::Int { i: i as int },
            JsonValue::Double(bits) => JsonModel::Double { bits },
            JsonValue::Text(s) => JsonModel::Text { s: s@ },
            JsonValue::Array(vs) => JsonModel::Array { items: json_seq_model(vs@) },
            JsonValue::Object(es) => JsonModel::Object { entries: json_entries_model(es@) },
        }
    }

    /// The empty JSON object, the decoded form of an empty document.
    pub fn empty_object() -> (r: Self)
        ensures
            r.model() == (JsonModel::Object { entries: Seq::<(Seq<char>, JsonModel)>::empty() }),
    {
        let entries: Vec<(String, JsonValue)> = Vec::new();
        proof {
            assert(json_entries_model(entries@) =~= Seq::<(Seq<char>, JsonModel)>::empty());
        }
        JsonValue::Object(entries)
    }
}

pub proof fn lemma_json_seq_model_push(vs: Seq<JsonValue>, v: JsonValue)
    ensures
        json_seq_model(vs.push(v)) == json_seq_model(vs).push(v.model()),
{
    assert(json_seq_model(vs.push(v)) =~= json_seq_model(vs).push(v.model()));
}

pub proof fn lemma_json_entries_model_push(es: Seq<(String, JsonValue)>, e: (String, JsonValue))
    ensures
        json_entries_model(es.push(e)) == json_entries_model(es).push((e.0@, e.1.model())),
{
    assert(json_entries_model(es.push(e)) =~= json_entries_model(es).push((e.0@, e.1.model())));
}

} // verus!
