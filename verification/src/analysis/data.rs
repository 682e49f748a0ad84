//! The position tree: the structural analyzer's output.  It mirrors the JSON
//! shape of a document but carries only byte positions and ranges, never
//! decoded content, so that the value materializer can be a separate pass.

use vstd::prelude::*;

verus! {

/// Structural-tier analysis failures.
#[derive(Debug, Clone, PartialEq, Eq)]
pub enum Error {
    UnknownQtValue,
    /// An array was requested but the container base's object flag is set.
    InvalidArrayContainer,
    /// An object was requested but the container base's object flag is clear.
    InvalidObjectContainer,
    /// A size field or key read would overrun the buffer.
    InvalidValueLength,
    /// Containers were nested deeper than the analyzer's hardening bound
    /// allows.  The bound is an addition for untrusted input: offsets in a
    /// hostile document can otherwise drive the recursion without limit.
    MaximumDepthExceeded,
}

/// A byte range inside the document buffer, covering exactly the payload of
/// an out-of-line value (size fields and alignment padding excluded).
#[derive(Debug)]
pub struct ByteField {
    pub start: usize,
    pub end: usize,
}

/// An array's elements, in table order.
#[derive(Debug)]
pub struct Array {
    pub values: Vec<Value>,
}

/// An object key, recorded as the byte range of its character payload.
#[derive(Debug)]
pub enum Key {
    Latin1String(ByteField),
    Utf16String(ByteField),
}

/// One object entry: a key and the value it maps to.
#[derive(Debug)]
pub struct Entry {
    pub key: Key,
    pub value: Value,
}

/// An object's entries, in encounter order.
#[derive(Debug)]
pub struct Object {
    pub entries: Vec<Entry>,
}

/// A value's place in the buffer.  Self-contained values carry the position
/// of their 4-byte header word; out-of-line values carry the byte range of
/// their payload.
#[derive(Debug)]
pub enum Value {
    Null(usize),
    Bool(usize),
    SelfContainedNumber(usize),
    Number(ByteField),
    Latin1String(ByteField),
    Utf16String(ByteField),
    Array(Array),
    Object(Object),
}

/// Mathematical mirror of `Value`, over unbounded integers.
pub ghost enum ValueModel {
    Null { pos: int },
    Bool { pos: int },
    SelfContainedNumber { pos: int },
    Number { start: int, end: int },
    Latin1String { start: int, end: int },
    Utf16String { start: int, end: int },
    Array { values: Seq<ValueModel> },
    Object { entries: Seq<EntryModel> },
}

/// Mathematical mirror of `Key`.
pub ghost enum KeyModel {
    Latin1String { start: int, end: int },
    Utf16String { start: int, end: int },
}

/// Mathematical mirror of `Entry`.
pub ghost struct EntryModel {
    pub key: KeyModel,
    pub value: ValueModel,
}

/// The models of a sequence of position-tree values, element by element.
pub open spec fn seq_model(vs: Seq<Value>) -> Seq<ValueModel>
    decreases vs,
{
    Seq::new(
        vs.len(),
        |i: int|
            if 0 <= i < vs.len() {
                vs[i].model()
            } else {
                ValueModel::Null { pos: 0 }
            },
    )
}

/// The models of a sequence of object entries, element by element.
pub open spec fn entries_model(es: Seq<Entry>) -> Seq<EntryModel>
    decreases es,
{
    Seq::new(
        es.len(),
        |i: int|
            if 0 <= i < es.len() {
                es[i].model()
            } else {
                EntryModel {
                    key: KeyModel::Latin1String { start: 0, end: 0 },
                    value: ValueModel::Null { pos: 0 },
                }
            },
    )
}

pub proof fn lemma_seq_model_push(vs: Seq<Value>, v: Value)
    ensures
        seq_model(vs.push(v)) == seq_model(vs).push(v.model()),
{
    assert(seq_model(vs.push(v)) =~= seq_model(vs).push(v.model()));
}

pub proof fn lemma_entries_model_push(es: Seq<Entry>, e: Entry)
    ensures
        entries_model(es.push(e)) == entries_model(es).push(e.model()),
{
    assert(entries_model(es.push(e)) =~= entries_model(es).push(e.model()));
}

impl Key {
    pub open spec fn model(self) -> KeyModel {
        match self {
            Key::Latin1String(f) => KeyModel::Latin1String { start: f.start as int, end: f.end as int },
            Key::Utf16String(f) => KeyModel::Utf16String { start: f.start as int, end: f.end as int },
        }
    }
}

impl Value {
    pub open spec fn model(self) -> ValueModel
        decreases self,
    {
        match self {
            Value::Null(p) => ValueModel::Null { pos: p as int },
            Value::Bool(p) => ValueModel::Bool { pos: p as int },
            Value::SelfContainedNumber(p) => ValueModel::SelfContainedNumber { pos: p as int },
            Value::Number(f) => ValueModel::Number { start: f.start as int, end: f.end as int },
            Value::Latin1String(f) => ValueModel::Latin1String {
                start: f.start as int,
                end: f.end as int,
            },
            Value::Utf16String(f) => ValueModel::Utf16String {
                start: f.start as int,
                end: f.end as int,
            },
            Value::Array(a) => ValueModel::Array { values: seq_model(a.values@) },
            Value::Object(o) => ValueModel::Object { entries: entries_model(o.entries@) },
        }
    }
}

impl Entry {
    pub open spec fn model(self) -> EntryModel
        decreases self,
    {
        EntryModel { key: self.key.model(), value: self.value.model() }
    }
}

} // verus!
