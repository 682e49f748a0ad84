//! The value materializer: a pure bottom-up walk of the position tree that
//! turns each recorded position or byte range into a typed JSON value.
//! Every range is re-checked against the buffer before it is read: tree and
//! buffer lifetimes are decoupled, so nothing here trusts the analyzer.

use vstd::prelude::*;

use encoding::all::{ISO_8859_1, UTF_16LE};
use encoding::{DecoderTrap, Encoding};

use crate::analysis::data;
use crate::analysis::data::{EntryModel, KeyModel, ValueModel};
use crate::analysis::metadata::VALUE_HEADER_BYTE_SIZE;
use crate::json::{
    json_entries_model, json_seq_model, lemma_json_entries_model_push, lemma_json_seq_model_push,
    JsonModel, JsonValue,
};
use crate::type_conversions::{as_i27, as_u32, as_u64, spec_as_i27, spec_as_u32, spec_as_u64};

verus! {

/// Materialization-tier failures.
#[derive(Debug, Clone, PartialEq, Eq)]
pub enum ReadError {
    InvalidBoolDataPosition,
    InvalidSelfContainedNumberDataPosition,
    InvalidNumberDataRange,
    InvalidLatin1StringDataRange,
    InvalidUtf16StringDataRange,
    FailedToDecodeLatin1String,
    FailedToDecodeUtf16String,
    FailedToDecodeNumber,
}

/// The text an ISO-8859-1 byte sequence denotes: each byte is the Unicode
/// code point of equal value.
pub open spec fn latin1_model(bytes: Seq<u8>) -> Seq<char> {
    Seq::new(bytes.len(), |i: int| bytes[i] as char)
}

/// The text a byte sequence denotes under UTF-16 little-endian, or `None`
/// where the bytes are ill-formed (an unpaired surrogate, or a trailing
/// half word).
pub uninterp spec fn utf16le_decoded(bytes: Seq<u8>) -> Option<Seq<char>>;

/// Relies on encoding's ISO_8859_1 codec: its decoder maps every byte to
/// the Unicode code point of equal value and rejects nothing, so strict
/// decoding is total.
#[verifier::external_body]
fn decode_latin1_bytes(bytes: &[u8]) -> (r: Result<String, ()>)
    ensures
        r is Ok,
        r->Ok_0@ == latin1_model(bytes@),
{
    match ISO_8859_1.decode(bytes, DecoderTrap::Strict) {
        Ok(s) => Ok(s),
        Err(_) => Err(()),
    }
}

/// Relies on encoding's UTF_16LE codec: strict decoding is a function of
/// the input bytes alone, succeeding exactly on well-formed UTF-16.
#[verifier::external_body]
fn decode_utf16le_bytes(bytes: &[u8]) -> (r: Result<String, ()>)
    ensures
        match utf16le_decoded(bytes@) {
            Some(s) => r matches Ok(t) && t@ == s,
            None => r is Err,
        },
{
    match UTF_16LE.decode(bytes, DecoderTrap::Strict) {
        Ok(s) => Ok(s),
        Err(_) => Err(()),
    }
}

/// Whether `bits`, read as an IEEE-754 double, is finite: a double is
/// infinite or NaN exactly when its 11 exponent bits are all ones.
pub open spec fn spec_double_is_finite(bits: u64) -> bool {
    (bits >> 52u64) & 0x7FFu64 != 0x7FFu64
}

fn double_is_finite(bits: u64) -> (r: bool)
    ensures
        r == spec_double_is_finite(bits),
{
    (bits >> 52u64) & 0x7FFu64 != 0x7FFu64
}

/// The text of the Latin-1 payload recorded at `[start, end)`, after
/// re-checking the range against the buffer.
pub open spec fn spec_read_latin1_string(d: Seq<u8>, start: int, end: int) -> Result<
    Seq<char>,
    ReadError,
> {
    if start > end || end > d.len() {
        Err(ReadError::InvalidLatin1StringDataRange)
    } else {
        Ok(latin1_model(d.subrange(start, end)))
    }
}

/// The text of the UTF-16 payload recorded at `[start, end)`, after
/// re-checking the range against the buffer.
pub open spec fn spec_read_utf16_string(d: Seq<u8>, start: int, end: int) -> Result<
    Seq<char>,
    ReadError,
> {
    if start > end || end > d.len() {
        Err(ReadError::InvalidUtf16StringDataRange)
    } else {
        match utf16le_decoded(d.subrange(start, end)) {
            Some(s) => Ok(s),
            None => Err(ReadError::FailedToDecodeUtf16String),
        }
    }
}

/// The text of an object key.
pub open spec fn spec_read_key(d: Seq<u8>, k: KeyModel) -> Result<Seq<char>, ReadError> {
    match k {
        KeyModel::Latin1String { start, end } => spec_read_latin1_string(d, start, end),
        KeyModel::Utf16String { start, end } => spec_read_utf16_string(d, start, end),
    }
}

/// The JSON value a position-tree node denotes against buffer `d`.
pub open spec fn spec_read_value(d: Seq<u8>, m: ValueModel) -> Result<JsonModel, ReadError>
    decreases m, 1int,
{
    match m {
        ValueModel::Null { .. } => Ok(JsonModel::Null),
        ValueModel::Bool { pos } => {
            if pos >= d.len() {
                Err(ReadError::InvalidBoolDataPosition)
            } else {
                // The payload is bit 5 of the header byte: the low bits
                // still carry the value's type tag.
                Ok(JsonModel::Bool { b: (d[pos] & 0b100000u8) != 0 })
            }
        },
        ValueModel::SelfContainedNumber { pos } => {
            if pos + VALUE_HEADER_BYTE_SIZE > d.len() || pos < 0 {
                Err(ReadError::InvalidSelfContainedNumberDataPosition)
            } else {
                let word = spec_as_u32(d.subrange(pos, pos + VALUE_HEADER_BYTE_SIZE));
                Ok(JsonModel::Int { i: spec_as_i27(word) as int })
            }
        },
        ValueModel::Number { start, end } => {
            if start > end || end > d.len() {
                Err(ReadError::InvalidNumberDataRange)
            } else {
                let bits = spec_as_u64(d.subrange(start, end));
                if spec_double_is_finite(bits) {
                    Ok(JsonModel::Double { bits })
                } else {
                    Err(ReadError::FailedToDecodeNumber)
                }
            }
        },
        ValueModel::Latin1String { start, end } => match spec_read_latin1_string(d, start, end) {
            Ok(s) => Ok(JsonModel::Text { s }),
            Err(e) => Err(e),
        },
        ValueModel::Utf16String { start, end } => match spec_read_utf16_string(d, start, end) {
            Ok(s) => Ok(JsonModel::Text { s }),
            Err(e) => Err(e),
        },
        ValueModel::Array { values } => match spec_read_elements(d, values) {
            Ok(items) => Ok(JsonModel::Array { items }),
            Err(e) => Err(e),
        },
        ValueModel::Object { entries } => match spec_read_entries(d, entries) {
            Ok(es) => Ok(JsonModel::Object { entries: es }),
            Err(e) => Err(e),
        },
    }
}

/// The JSON values of a sequence of position-tree nodes, left to right,
/// stopping at the first failure.
pub open spec fn spec_read_elements(d: Seq<u8>, vs: Seq<ValueModel>) -> Result<
    Seq<JsonModel>,
    ReadError,
>
    decreases vs, 0int,
{
    if vs.len() == 0 {
        Ok(Seq::empty())
    } else {
        match spec_read_elements(d, vs.drop_last()) {
            Err(e) => Err(e),
            Ok(items) => match spec_read_value(d, vs.last()) {
                Ok(v) => Ok(items.push(v)),
                Err(e) => Err(e),
            },
        }
    }
}

/// The key and value texts of a sequence of object entries, left to right,
/// stopping at the first failure; within one entry the key is read first.
pub open spec fn spec_read_entries(d: Seq<u8>, es: Seq<EntryModel>) -> Result<
    Seq<(Seq<char>, JsonModel)>,
    ReadError,
>
    decreases es, 0int,
{
    if es.len() == 0 {
        Ok(Seq::empty())
    } else {
        match spec_read_entries(d, es.drop_last()) {
            Err(e) => Err(e),
            Ok(done) => match spec_read_key(d, es.last().key) {
                Err(e) => Err(e),
                Ok(key) => match spec_read_value(d, es.last().value) {
                    Ok(v) => Ok(done.push((key, v))),
                    Err(e) => Err(e),
                },
            },
        }
    }
}

fn read_latin1_string(data: &[u8], bytefield: &data::ByteField) -> (r: Result<String, ReadError>)
    ensures
        match r {
            Ok(s) => spec_read_latin1_string(data@, bytefield.start as int, bytefield.end as int)
                == Ok::<Seq<char>, ReadError>(s@),
            Err(e) => spec_read_latin1_string(data@, bytefield.start as int, bytefield.end as int)
                == Err::<Seq<char>, ReadError>(e),
        },
{
    if bytefield.start > bytefield.end || bytefield.end > data.len() {
        return Err(ReadError::InvalidLatin1StringDataRange);
    }

    match decode_latin1_bytes(&data[bytefield.start..bytefield.end]) {
        Ok(s) => Ok(s),
        Err(_) => Err(ReadError::FailedToDecodeLatin1String),
    }
}

fn read_utf16_string(data: &[u8], bytefield: &data::ByteField) -> (r: Result<String, ReadError>)
    ensures
        match r {
            Ok(s) => spec_read_utf16_string(data@, bytefield.start as int, bytefield.end as int)
                == Ok::<Seq<char>, ReadError>(s@),
            Err(e) => spec_read_utf16_string(data@, bytefield.start as int, bytefield.end as int)
                == Err::<Seq<char>, ReadError>(e),
        },
{
    if bytefield.start > bytefield.end || bytefield.end > data.len() {
        return Err(ReadError::InvalidUtf16StringDataRange);
    }

    match decode_utf16le_bytes(&data[bytefield.start..bytefield.end]) {
        Ok(s) => Ok(s),
        Err(_) => Err(ReadError::FailedToDecodeUtf16String),
    }
}

/// Materializes an object key.
fn read_key(data: &[u8], key: &data::Key) -> (r: Result<String, ReadError>)
    ensures
        match r {
            Ok(s) => spec_read_key(data@, key.model()) == Ok::<Seq<char>, ReadError>(s@),
            Err(e) => spec_read_key(data@, key.model()) == Err::<Seq<char>, ReadError>(e),
        },
{
    match key {
        data::Key::Latin1String(bytefield) => read_latin1_string(data, bytefield),
        data::Key::Utf16String(bytefield) => read_utf16_string(data, bytefield),
    }
}

fn read_bool(data: &[u8], position: usize) -> (r: Result<JsonValue, ReadError>)
    ensures
        match r {
            Ok(v) => spec_read_value(data@, ValueModel::Bool { pos: position as int })
                == Ok::<JsonModel, ReadError>(v.model()),
            Err(e) => spec_read_value(data@, ValueModel::Bool { pos: position as int })
                == Err::<JsonModel, ReadError>(e),
        },
{
    if position >= data.len() {
        return Err(ReadError::InvalidBoolDataPosition);
    }

    let bool_data = data[position];
    Ok(JsonValue::Bool((bool_data & 0b100000u8) != 0))
}

fn read_self_contained_number(data: &[u8], position: usize) -> (r: Result<JsonValue, ReadError>)
    ensures
        match r {
            Ok(v) => spec_read_value(data@, ValueModel::SelfContainedNumber { pos: position as int })
                == Ok::<JsonModel, ReadError>(v.model()),
            Err(e) => spec_read_value(
                data@,
                ValueModel::SelfContainedNumber { pos: position as int },
            ) == Err::<JsonModel, ReadError>(e),
        },
{
    let buffer_length = data.len();
    if VALUE_HEADER_BYTE_SIZE > buffer_length || position > buffer_length
        - VALUE_HEADER_BYTE_SIZE {
        return Err(ReadError::InvalidSelfContainedNumberDataPosition);
    }

    let number = as_i27(as_u32(&data[position..position + VALUE_HEADER_BYTE_SIZE]));
    Ok(JsonValue::Int(number))
}

fn read_number(data: &[u8], bytefield: &data::ByteField) -> (r: Result<JsonValue, ReadError>)
    ensures
        match r {
            Ok(v) => spec_read_value(
                data@,
                ValueModel::Number { start: bytefield.start as int, end: bytefield.end as int },
            ) == Ok::<JsonModel, ReadError>(v.model()),
            Err(e) => spec_read_value(
                data@,
                ValueModel::Number { start: bytefield.start as int, end: bytefield.end as int },
            ) == Err::<JsonModel, ReadError>(e),
        },
{
    if bytefield.start > bytefield.end || bytefield.end > data.len() {
        return Err(ReadError::InvalidNumberDataRange);
    }

    let bits = as_u64(&data[bytefield.start..bytefield.end]);
    if double_is_finite(bits) {
        Ok(JsonValue::Double(bits))
    } else {
        Err(ReadError::FailedToDecodeNumber)
    }
}

fn read_latin1_string_value(data: &[u8], bytefield: &data::ByteField) -> (r: Result<
    JsonValue,
    ReadError,
>)
    ensures
        match r {
            Ok(v) => spec_read_value(
                data@,
                ValueModel::Latin1String {
                    start: bytefield.start as int,
                    end: bytefield.end as int,
                },
            ) == Ok::<JsonModel, ReadError>(v.model()),
            Err(e) => spec_read_value(
                data@,
                ValueModel::Latin1String {
                    start: bytefield.start as int,
                    end: bytefield.end as int,
                },
            ) == Err::<JsonModel, ReadError>(e),
        },
{
    match read_latin1_string(data, bytefield) {
        Ok(s) => Ok(JsonValue::Text(s)),
        Err(e) => Err(e),
    }
}

fn read_utf16_string_value(data: &[u8], bytefield: &data::ByteField) -> (r: Result<
    JsonValue,
    ReadError,
>)
    ensures
        match r {
            Ok(v) => spec_read_value(
                data@,
                ValueModel::Utf16String {
                    start: bytefield.start as int,
                    end: bytefield.end as int,
                },
            ) == Ok::<JsonModel, ReadError>(v.model()),
            Err(e) => spec_read_value(
                data@,
                ValueModel::Utf16String {
                    start: bytefield.start as int,
                    end: bytefield.end as int,
                },
            ) == Err::<JsonModel, ReadError>(e),
        },
{
    match read_utf16_string(data, bytefield) {
        Ok(s) => Ok(JsonValue::Text(s)),
        Err(e) => Err(e),
    }
}

fn read_array(data: &[u8], array: &data::Array) -> (r: Result<JsonValue, ReadError>)
    ensures
        match r {
            Ok(v) => spec_read_value(data@, ValueModel::Array { values: data::seq_model(array.values@) })
                == Ok::<JsonModel, ReadError>(v.model()),
            Err(e) => spec_read_value(
                data@,
                ValueModel::Array { values: data::seq_model(array.values@) },
            ) == Err::<JsonModel, ReadError>(e),
        },
    decreases array,
{
    let ghost models = data::seq_model(array.values@);
    let n = array.values.len();
    let mut items: Vec<JsonValue> = Vec::new();

    proof {
        assert(json_seq_model(items@) =~= Seq::<JsonModel>::empty());
        assert(models.subrange(0, 0) =~= Seq::<ValueModel>::empty());
    }

    let mut i: usize = 0;
    while i < n
        invariant
            i <= n,
            n == array.values@.len(),
            models == data::seq_model(array.values@),
            spec_read_elements(data@, models.subrange(0, i as int)) == Ok::<
                Seq<JsonModel>,
                ReadError,
            >(json_seq_model(items@)),
        decreases n - i,
    {
        let ghost items_snapshot = items@;
        match read_value(data, &array.values[i]) {
            Ok(v) => {
                proof {
                    lemma_json_seq_model_push(items_snapshot, v);
                    assert(models.subrange(0, i + 1).drop_last() =~= models.subrange(0, i as int));
                    assert(models.subrange(0, i + 1).last() == array.values@[i as int].model());
                }
                items.push(v);
            },
            Err(e) => {
                proof {
                    assert(models.subrange(0, i + 1).drop_last() =~= models.subrange(0, i as int));
                    assert(models.subrange(0, i + 1).last() == array.values@[i as int].model());
                    lemma_read_elements_error(data@, models, i + 1);
                }
                return Err(e);
            },
        }
        i = i + 1;
    }

    proof {
        assert(models.subrange(0, n as int) =~= models);
    }
    Ok(JsonValue::Array(items))
}

fn read_object(data: &[u8], object: &data::Object) -> (r: Result<JsonValue, ReadError>)
    ensures
        match r {
            Ok(v) => spec_read_value(
                data@,
                ValueModel::Object { entries: data::entries_model(object.entries@) },
            ) == Ok::<JsonModel, ReadError>(v.model()),
            Err(e) => spec_read_value(
                data@,
                ValueModel::Object { entries: data::entries_model(object.entries@) },
            ) == Err::<JsonModel, ReadError>(e),
        },
    decreases object,
{
    let ghost models = data::entries_model(object.entries@);
    let n = object.entries.len();
    let mut entries: Vec<(String, JsonValue)> = Vec::new();

    proof {
        assert(json_entries_model(entries@) =~= Seq::<(Seq<char>, JsonModel)>::empty());
        assert(models.subrange(0, 0) =~= Seq::<EntryModel>::empty());
    }

    let mut i: usize = 0;
    while i < n
        invariant
            i <= n,
            n == object.entries@.len(),
            models == data::entries_model(object.entries@),
            spec_read_entries(data@, models.subrange(0, i as int)) == Ok::<
                Seq<(Seq<char>, JsonModel)>,
                ReadError,
            >(json_entries_model(entries@)),
        decreases n - i,
    {
        proof {
            assert(models.subrange(0, i + 1).drop_last() =~= models.subrange(0, i as int));
            assert(models.subrange(0, i + 1).last() == object.entries@[i as int].model());
        }
        let key = match read_key(data, &object.entries[i].key) {
            Ok(k) => k,
            Err(e) => {
                proof {
                    lemma_read_entries_error(data@, models, i + 1);
                }
                return Err(e);
            },
        };
        let value = match read_value(data, &object.entries[i].value) {
            Ok(v) => v,
            Err(e) => {
                proof {
                    lemma_read_entries_error(data@, models, i + 1);
                }
                return Err(e);
            },
        };
        let ghost entries_snapshot = entries@;
        proof {
            lemma_json_entries_model_push(entries_snapshot, (key, value));
        }
        entries.push((key, value));
        i = i + 1;
    }

    proof {
        assert(models.subrange(0, n as int) =~= models);
    }
    Ok(JsonValue::Object(entries))
}

/// An error among the first `j` elements is the error of every longer
/// prefix as well.
proof fn lemma_read_elements_error(d: Seq<u8>, vs: Seq<ValueModel>, j: int)
    requires
        0 <= j <= vs.len(),
        spec_read_elements(d, vs.subrange(0, j)) is Err,
    ensures
        spec_read_elements(d, vs) == spec_read_elements(d, vs.subrange(0, j)),
    decreases vs.len(),
{
    if j < vs.len() {
        assert(vs.drop_last().subrange(0, j) =~= vs.subrange(0, j));
        lemma_read_elements_error(d, vs.drop_last(), j);
    } else {
        assert(vs.subrange(0, j) =~= vs);
    }
}

/// An error among the first `j` entries is the error of every longer
/// prefix as well.
proof fn lemma_read_entries_error(d: Seq<u8>, es: Seq<EntryModel>, j: int)
    requires
        0 <= j <= es.len(),
        spec_read_entries(d, es.subrange(0, j)) is Err,
    ensures
        spec_read_entries(d, es) == spec_read_entries(d, es.subrange(0, j)),
    decreases es.len(),
{
    if j < es.len() {
        assert(es.drop_last().subrange(0, j) =~= es.subrange(0, j));
        lemma_read_entries_error(d, es.drop_last(), j);
    } else {
        assert(es.subrange(0, j) =~= es);
    }
}

/// Materializes the JSON value a position-tree node denotes, re-checking
/// every recorded position and range against `data`.
pub fn read_value(data: &[u8], value: &data::Value) -> (r: Result<JsonValue, ReadError>)
    ensures
        match r {
            Ok(v) => spec_read_value(data@, value.model()) == Ok::<JsonModel, ReadError>(v.model()),
            Err(e) => spec_read_value(data@, value.model()) == Err::<JsonModel, ReadError>(e),
        },
    decreases value,
{
    match value {
        data::Value::Null(_) => Ok(JsonValue::Null),
        data::Value::Bool(position) => read_bool(data, *position),
        data::Value::SelfContainedNumber(position) => read_self_contained_number(data, *position),
        data::Value::Number(bytefield) => read_number(data, bytefield),
        data::Value::Latin1String(bytefield) => read_latin1_string_value(data, bytefield),
        data::Value::Utf16String(bytefield) => read_utf16_string_value(data, bytefield),
        data::Value::Array(array) => read_array(data, array),
        data::Value::Object(object) => read_object(data, object),
    }
}

} // verus!
