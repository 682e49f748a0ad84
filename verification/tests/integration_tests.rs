use qbjs_reader::analysis::{data, AnalysisError};
use qbjs_reader::error::DecodeError;
use qbjs_reader::json::JsonValue;
use qbjs_reader::qbjs::{deserialize_to_json, DeserializeError};

// ---------------------------------------------------------------------------
// A small qbjs encoder for building test documents.
// ---------------------------------------------------------------------------

enum V {
    Null,
    Bool(bool),
    Int(i32),
    Double(f64),
    Latin1(&'static str),
    Utf16(&'static str),
    Arr(Vec<V>),
    Obj(Vec<(&'static str, V)>),
}

fn pad4(buf: &mut Vec<u8>) {
    while buf.len() % 4 != 0 {
        buf.push(0);
    }
}

fn latin1_payload(s: &str) -> Vec<u8> {
    let mut out = Vec::new();
    let bytes: Vec<u8> = s.chars().map(|c| c as u32 as u8).collect();
    out.extend_from_slice(&(bytes.len() as u16).to_le_bytes());
    out.extend_from_slice(&bytes);
    pad4(&mut out);
    out
}

fn utf16_payload(s: &str) -> Vec<u8> {
    let mut out = Vec::new();
    let units: Vec<u16> = s.encode_utf16().collect();
    out.extend_from_slice(&(units.len() as u32).to_le_bytes());
    for u in units {
        out.extend_from_slice(&u.to_le_bytes());
    }
    pad4(&mut out);
    out
}

/// The 27-bit sign-flag form of a small integer.
fn int_bit_field(v: i32) -> u32 {
    (v as u32) & 0x7FF_FFFF
}

/// Builds the header word for a value, appending any out-of-line payload to
/// `buf` (whose length is measured from the container base).
fn value_word(v: &V, latin_key: bool, buf: &mut Vec<u8>) -> u32 {
    let key_flag: u32 = if latin_key { 0x10 } else { 0 };
    match v {
        V::Null => key_flag,
        V::Bool(b) => 0x01 | key_flag | if *b { 0x20 } else { 0 },
        V::Int(i) => 0x02 | 0x08 | key_flag | (int_bit_field(*i) << 5),
        V::Double(d) => {
            let offset = buf.len() as u32;
            buf.extend_from_slice(&d.to_bits().to_le_bytes());
            0x02 | key_flag | (offset << 5)
        }
        V::Latin1(s) => {
            let offset = buf.len() as u32;
            buf.extend_from_slice(&latin1_payload(s));
            0x03 | 0x08 | key_flag | (offset << 5)
        }
        V::Utf16(s) => {
            let offset = buf.len() as u32;
            buf.extend_from_slice(&utf16_payload(s));
            0x03 | key_flag | (offset << 5)
        }
        V::Arr(_) => {
            let offset = buf.len() as u32;
            let child = container_bytes(v);
            buf.extend_from_slice(&child);
            0x04 | key_flag | (offset << 5)
        }
        V::Obj(_) => {
            let offset = buf.len() as u32;
            let child = container_bytes(v);
            buf.extend_from_slice(&child);
            0x05 | key_flag | (offset << 5)
        }
    }
}

/// Encodes an array or object container, offsets relative to its own start.
fn container_bytes(v: &V) -> Vec<u8> {
    match v {
        V::Arr(values) => {
            let mut buf = vec![0u8; 12];
            let mut words: Vec<u32> = Vec::new();
            for value in values {
                words.push(value_word(value, false, &mut buf));
            }
            let table_offset = buf.len() as u32;
            for w in &words {
                buf.extend_from_slice(&w.to_le_bytes());
            }
            let size = buf.len() as u32;
            buf[0..4].copy_from_slice(&size.to_le_bytes());
            buf[4..8].copy_from_slice(&((values.len() as u32) << 1).to_le_bytes());
            buf[8..12].copy_from_slice(&table_offset.to_le_bytes());
            buf
        }
        V::Obj(entries) => {
            let mut buf = vec![0u8; 12];
            for (key, value) in entries {
                let header_pos = buf.len();
                buf.extend_from_slice(&[0u8; 4]);
                buf.extend_from_slice(&latin1_payload(key));
                let word = value_word(value, true, &mut buf);
                buf[header_pos..header_pos + 4].copy_from_slice(&word.to_le_bytes());
            }
            let size = buf.len() as u32;
            buf[0..4].copy_from_slice(&size.to_le_bytes());
            buf[4..8].copy_from_slice(&(((entries.len() as u32) << 1) | 1).to_le_bytes());
            buf[8..12].copy_from_slice(&size.to_le_bytes());
            buf
        }
        _ => panic!("only containers can stand at a container position"),
    }
}

fn document(root: V) -> Vec<u8> {
    let mut buf = Vec::new();
    buf.extend_from_slice(b"qbjs");
    buf.extend_from_slice(&1u32.to_le_bytes());
    buf.extend_from_slice(&container_bytes(&root));
    buf
}

// ---------------------------------------------------------------------------
// Expected-value helpers.
// ---------------------------------------------------------------------------

fn obj(entries: Vec<(&str, JsonValue)>) -> JsonValue {
    JsonValue::Object(entries.into_iter().map(|(k, v)| (k.to_string(), v)).collect())
}

fn arr(values: Vec<JsonValue>) -> JsonValue {
    JsonValue::Array(values)
}

fn txt(s: &str) -> JsonValue {
    JsonValue::Text(s.to_string())
}

fn dbl(x: f64) -> JsonValue {
    JsonValue::Double(x.to_bits())
}

fn decode_ok(bytes: &[u8]) -> JsonValue {
    qbjs_reader::decode(bytes).expect("expected the document to decode")
}

// ---------------------------------------------------------------------------
// Documents with a single-entry object root.
// ---------------------------------------------------------------------------

#[test]
fn null_document() {
    let content = document(V::Obj(vec![("nullObj", V::Null)]));
    assert_eq!(decode_ok(&content), obj(vec![("nullObj", JsonValue::Null)]));
}

#[test]
fn bool_true_document() {
    let content = document(V::Obj(vec![("aBool", V::Bool(true))]));
    assert_eq!(decode_ok(&content), obj(vec![("aBool", JsonValue::Bool(true))]));
}

#[test]
fn bool_false_document() {
    let content = document(V::Obj(vec![("aBool", V::Bool(false))]));
    assert_eq!(decode_ok(&content), obj(vec![("aBool", JsonValue::Bool(false))]));
}

#[test]
fn double_document() {
    let content = document(V::Obj(vec![("pi_approx", V::Double(3.14159))]));
    assert_eq!(decode_ok(&content), obj(vec![("pi_approx", dbl(3.14159))]));
}

#[test]
fn int_document() {
    let content = document(V::Obj(vec![("pi_approx", V::Int(3))]));
    assert_eq!(decode_ok(&content), obj(vec![("pi_approx", JsonValue::Int(3))]));
}

#[test]
fn string_document() {
    let content = document(V::Obj(vec![("foo", V::Latin1("bar"))]));
    assert_eq!(decode_ok(&content), obj(vec![("foo", txt("bar"))]));
}

#[test]
fn null_array_document() {
    let content = document(V::Obj(vec![("null array", V::Arr(vec![V::Null, V::Null, V::Null]))]));
    assert_eq!(
        decode_ok(&content),
        obj(vec![(
            "null array",
            arr(vec![JsonValue::Null, JsonValue::Null, JsonValue::Null]),
        )]),
    );
}

#[test]
fn bool_array_document() {
    let content = document(V::Obj(vec![(
        "bool array",
        V::Arr(vec![V::Bool(true), V::Bool(false), V::Bool(true)]),
    )]));
    assert_eq!(
        decode_ok(&content),
        obj(vec![(
            "bool array",
            arr(vec![
                JsonValue::Bool(true),
                JsonValue::Bool(false),
                JsonValue::Bool(true),
            ]),
        )]),
    );
}

#[test]
fn double_array_document() {
    let content = document(V::Obj(vec![(
        "double array",
        V::Arr(vec![V::Double(-0.5), V::Double(0.0), V::Double(0.5)]),
    )]));
    assert_eq!(
        decode_ok(&content),
        obj(vec![("double array", arr(vec![dbl(-0.5), dbl(0.0), dbl(0.5)]))]),
    );
}

#[test]
fn int_array_document() {
    let content = document(V::Obj(vec![(
        "int array",
        V::Arr(vec![V::Int(-5), V::Int(0), V::Int(5)]),
    )]));
    assert_eq!(
        decode_ok(&content),
        obj(vec![(
            "int array",
            arr(vec![JsonValue::Int(-5), JsonValue::Int(0), JsonValue::Int(5)]),
        )]),
    );
}

#[test]
fn string_array_document() {
    let content = document(V::Obj(vec![(
        "string array",
        V::Arr(vec![V::Latin1("foo"), V::Latin1("bar"), V::Latin1("baz")]),
    )]));
    assert_eq!(
        decode_ok(&content),
        obj(vec![("string array", arr(vec![txt("foo"), txt("bar"), txt("baz")]))]),
    );
}

#[test]
fn object_document() {
    let content = document(V::Obj(vec![(
        "everything",
        V::Obj(vec![
            ("nullObj", V::Null),
            ("aBool", V::Bool(true)),
            ("anotherBool", V::Bool(false)),
            ("pi_approx_d", V::Double(3.14159)),
            ("pi_approx_i", V::Int(3)),
            ("foo", V::Latin1("bar")),
            ("null array", V::Arr(vec![V::Null, V::Null, V::Null])),
            ("bool array", V::Arr(vec![V::Bool(true), V::Bool(false), V::Bool(true)])),
            ("double array", V::Arr(vec![V::Double(-0.5), V::Double(0.0), V::Double(0.5)])),
            ("int array", V::Arr(vec![V::Int(-5), V::Int(0), V::Int(5)])),
            ("string array", V::Arr(vec![V::Latin1("foo"), V::Latin1("bar"), V::Latin1("baz")])),
        ]),
    )]));
    assert_eq!(
        decode_ok(&content),
        obj(vec![(
            "everything",
            obj(vec![
                ("nullObj", JsonValue::Null),
                ("aBool", JsonValue::Bool(true)),
                ("anotherBool", JsonValue::Bool(false)),
                ("pi_approx_d", dbl(3.14159)),
                ("pi_approx_i", JsonValue::Int(3)),
                ("foo", txt("bar")),
                ("null array", arr(vec![JsonValue::Null, JsonValue::Null, JsonValue::Null])),
                (
                    "bool array",
                    arr(vec![
                        JsonValue::Bool(true),
                        JsonValue::Bool(false),
                        JsonValue::Bool(true),
                    ]),
                ),
                ("double array", arr(vec![dbl(-0.5), dbl(0.0), dbl(0.5)])),
                (
                    "int array",
                    arr(vec![JsonValue::Int(-5), JsonValue::Int(0), JsonValue::Int(5)]),
                ),
                ("string array", arr(vec![txt("foo"), txt("bar"), txt("baz")])),
            ]),
        )]),
    );
}

#[test]
fn object_in_object_document() {
    let content = document(V::Obj(vec![(
        "root",
        V::Obj(vec![(
            "child",
            V::Obj(vec![("aBool", V::Bool(false)), ("anotherBool", V::Bool(true))]),
        )]),
    )]));
    assert_eq!(
        decode_ok(&content),
        obj(vec![(
            "root",
            obj(vec![(
                "child",
                obj(vec![
                    ("aBool", JsonValue::Bool(false)),
                    ("anotherBool", JsonValue::Bool(true)),
                ]),
            )]),
        )]),
    );
}

#[test]
fn empty_document() {
    let content: Vec<u8> = Vec::new();
    assert_eq!(decode_ok(&content), obj(vec![]));
}

// ---------------------------------------------------------------------------
// Buffer-length and header validation.
// ---------------------------------------------------------------------------

#[test]
fn short_buffers_are_insufficient_data() {
    for len in 1..8 {
        let content = vec![0x71u8; len];
        assert_eq!(qbjs_reader::decode(&content), Err(DecodeError::InsufficientData));
        assert_eq!(deserialize_to_json(&content), Err(DeserializeError::InsufficientData));
    }
}

#[test]
fn wrong_tag_is_malformed_header() {
    let mut content = document(V::Obj(vec![]));
    content[0..4].copy_from_slice(b"qlip");
    assert_eq!(qbjs_reader::decode(&content), Err(DecodeError::MalformedHeader));
    assert_eq!(
        deserialize_to_json(&content),
        Err(DeserializeError::AnalysisError(AnalysisError::HeaderAnalysisError(
            qbjs_reader::analysis::header::Error::InvalidTag,
        ))),
    );
}

#[test]
fn wrong_version_is_malformed_header() {
    let mut content = document(V::Obj(vec![]));
    content[4..8].copy_from_slice(&2u32.to_le_bytes());
    assert_eq!(qbjs_reader::decode(&content), Err(DecodeError::MalformedHeader));
}

#[test]
fn big_endian_marker_is_malformed_header() {
    let mut content = document(V::Obj(vec![]));
    content[4..8].copy_from_slice(&0x0100_0000u32.to_le_bytes());
    assert_eq!(qbjs_reader::decode(&content), Err(DecodeError::MalformedHeader));
    assert_eq!(
        deserialize_to_json(&content),
        Err(DeserializeError::AnalysisError(AnalysisError::HeaderAnalysisError(
            qbjs_reader::analysis::header::Error::InvalidVersion,
        ))),
    );
}

#[test]
fn header_alone_is_missing_container_base() {
    let mut content = document(V::Obj(vec![]));
    content.truncate(8);
    assert_eq!(
        deserialize_to_json(&content),
        Err(DeserializeError::AnalysisError(AnalysisError::MetadataAnalysisError(
            qbjs_reader::analysis::metadata::Error::InvalidContainerBaseLength,
        ))),
    );
    assert_eq!(qbjs_reader::decode(&content), Err(DecodeError::InvalidObject));
}

// ---------------------------------------------------------------------------
// Encoded empty containers.
// ---------------------------------------------------------------------------

#[test]
fn encoded_empty_object_document() {
    let content = document(V::Obj(vec![]));
    assert_eq!(decode_ok(&content), obj(vec![]));
}

#[test]
fn encoded_empty_array_document() {
    let content = document(V::Arr(vec![]));
    assert_eq!(decode_ok(&content), arr(vec![]));
}

// ---------------------------------------------------------------------------
// Idempotence and text encodings.
// ---------------------------------------------------------------------------

#[test]
fn decoding_twice_gives_equal_results() {
    let content = document(V::Obj(vec![
        ("foo", V::Latin1("bar")),
        ("nested", V::Obj(vec![("pi", V::Double(3.14159))])),
    ]));
    let first = qbjs_reader::decode(&content);
    let second = qbjs_reader::decode(&content);
    assert_eq!(first, second);
}

#[test]
fn latin1_high_bytes_become_code_points() {
    // 0xE9 in ISO-8859-1 is U+00E9; the decoded text must hold the code
    // point, not the raw byte sequence.
    let content = document(V::Obj(vec![("accent", V::Latin1("caf\u{e9}"))]));
    assert_eq!(decode_ok(&content), obj(vec![("accent", txt("caf\u{e9}"))]));
}

#[test]
fn utf16_string_document() {
    let content = document(V::Obj(vec![("greeting", V::Utf16("\u{65e5}\u{672c} hi"))]));
    assert_eq!(decode_ok(&content), obj(vec![("greeting", txt("\u{65e5}\u{672c} hi"))]));
}

#[test]
fn utf16_surrogate_pair_document() {
    let content = document(V::Obj(vec![("emoji", V::Utf16("\u{1f600}"))]));
    assert_eq!(decode_ok(&content), obj(vec![("emoji", txt("\u{1f600}"))]));
}

#[test]
fn utf16_key_document() {
    // One entry whose key is UTF-16: header word for `true` with the
    // latin-key flag clear, then the key's 4-byte count and payload.
    let mut root = vec![0u8; 12];
    root.extend_from_slice(&(0x01u32 | 0x20).to_le_bytes());
    root.extend_from_slice(&utf16_payload("k\u{65e5}"));
    let size = root.len() as u32;
    root[0..4].copy_from_slice(&size.to_le_bytes());
    root[4..8].copy_from_slice(&3u32.to_le_bytes());
    root[8..12].copy_from_slice(&size.to_le_bytes());

    let mut content = Vec::new();
    content.extend_from_slice(b"qbjs");
    content.extend_from_slice(&1u32.to_le_bytes());
    content.extend_from_slice(&root);

    assert_eq!(decode_ok(&content), obj(vec![("k\u{65e5}", JsonValue::Bool(true))]));
}

// ---------------------------------------------------------------------------
// Signed 27-bit integers.
// ---------------------------------------------------------------------------

#[test]
fn int_extremes_document() {
    let content = document(V::Obj(vec![(
        "extremes",
        V::Arr(vec![V::Int(67108863), V::Int(-67108863), V::Int(1), V::Int(-1)]),
    )]));
    assert_eq!(
        decode_ok(&content),
        obj(vec![(
            "extremes",
            arr(vec![
                JsonValue::Int(67108863),
                JsonValue::Int(-67108863),
                JsonValue::Int(1),
                JsonValue::Int(-1),
            ]),
        )]),
    );
}

#[test]
fn as_i27_formula_values() {
    // Direct checks of the sign-flag formula on full header words.
    assert_eq!(qbjs_reader::type_conversions::as_i27(5u32 << 5), 5);
    assert_eq!(qbjs_reader::type_conversions::as_i27(0), 0);
    assert_eq!(qbjs_reader::type_conversions::as_i27(0x7FF_FFFBu32 << 5), -5);
    assert_eq!(qbjs_reader::type_conversions::as_u27(0xFFFF_FFFF), 0x7FF_FFFF);
    assert_eq!(qbjs_reader::type_conversions::as_u32(&[0x78, 0x56, 0x34, 0x12]), 0x1234_5678);
    assert_eq!(qbjs_reader::type_conversions::as_u32(&[0x78, 0x56]), 0x5678);
    assert_eq!(
        qbjs_reader::type_conversions::as_u64(&[1, 2, 3, 4, 5, 6, 7, 8]),
        0x0807_0605_0403_0201,
    );
}

// ---------------------------------------------------------------------------
// Structural and materialization failures.
// ---------------------------------------------------------------------------

#[test]
fn unknown_value_type_document() {
    // Patch the entry's type tag to 6, which the format does not define.
    let mut content = document(V::Obj(vec![("k", V::Null)]));
    content[20] = (content[20] & !0x07) | 0x06;
    assert_eq!(
        deserialize_to_json(&content),
        Err(DeserializeError::AnalysisError(AnalysisError::DataAnalysisError(
            data::Error::UnknownQtValue,
        ))),
    );
    assert_eq!(qbjs_reader::decode(&content), Err(DecodeError::UnknownValueType));
}

#[test]
fn array_container_with_object_flag() {
    // The child container's descriptor claims an object where the entry's
    // header declares an array.
    let mut content = document(V::Obj(vec![("k", V::Arr(vec![]))]));
    let child_base = 20 + 4 + 4;  // entry header, then the 2-byte count of "k" padded to 4
    content[child_base + 4] |= 0x01;
    assert_eq!(
        deserialize_to_json(&content),
        Err(DeserializeError::AnalysisError(AnalysisError::DataAnalysisError(
            data::Error::InvalidArrayContainer,
        ))),
    );
    assert_eq!(qbjs_reader::decode(&content), Err(DecodeError::InvalidObject));
}

#[test]
fn object_container_with_array_flag() {
    let mut content = document(V::Obj(vec![("k", V::Obj(vec![]))]));
    let child_base = 20 + 4 + 4;
    content[child_base + 4] &= !0x01;
    assert_eq!(
        deserialize_to_json(&content),
        Err(DeserializeError::AnalysisError(AnalysisError::DataAnalysisError(
            data::Error::InvalidObjectContainer,
        ))),
    );
}

#[test]
fn truncated_entry_header_document() {
    let mut content = document(V::Obj(vec![("k", V::Bool(true))]));
    content.truncate(20);
    assert_eq!(
        deserialize_to_json(&content),
        Err(DeserializeError::AnalysisError(AnalysisError::MetadataAnalysisError(
            qbjs_reader::analysis::metadata::Error::InvalidValueHeaderSize,
        ))),
    );
}

#[test]
fn truncated_key_document() {
    let mut content = document(V::Obj(vec![("k", V::Bool(true))]));
    content.truncate(24);
    assert_eq!(
        deserialize_to_json(&content),
        Err(DeserializeError::AnalysisError(AnalysisError::DataAnalysisError(
            data::Error::InvalidValueLength,
        ))),
    );
}

#[test]
fn nan_double_document() {
    let content = document(V::Obj(vec![("bad", V::Double(f64::NAN))]));
    assert_eq!(
        deserialize_to_json(&content),
        Err(DeserializeError::ReadError(qbjs_reader::read::ReadError::FailedToDecodeNumber)),
    );
    assert_eq!(qbjs_reader::decode(&content), Err(DecodeError::InvalidDoubleValue));
}

#[test]
fn infinite_double_document() {
    let content = document(V::Obj(vec![("bad", V::Double(f64::INFINITY))]));
    assert_eq!(qbjs_reader::decode(&content), Err(DecodeError::InvalidDoubleValue));
}

#[test]
fn double_range_past_buffer() {
    // Point the number header's offset field past the end of the buffer.
    let mut content = document(V::Obj(vec![("pi", V::Double(3.14159))]));
    let word = 0x02u32 | 0x10 | (0x100000 << 5);
    content[20..24].copy_from_slice(&word.to_le_bytes());
    assert_eq!(
        deserialize_to_json(&content),
        Err(DeserializeError::ReadError(qbjs_reader::read::ReadError::InvalidNumberDataRange)),
    );
    assert_eq!(qbjs_reader::decode(&content), Err(DecodeError::InvalidDoubleValue));
}

#[test]
fn latin1_range_past_buffer() {
    // Inflate the string's character count so its payload range overruns
    // the buffer; analysis records the range, materialization refuses it.
    let mut content = document(V::Obj(vec![("foo", V::Latin1("bar"))]));
    let size_field_pos = 20 + 4 + 8;  // entry header, key "foo" (2 + 3 padded to 8)
    content[size_field_pos..size_field_pos + 2].copy_from_slice(&0xFFFFu16.to_le_bytes());
    assert_eq!(
        deserialize_to_json(&content),
        Err(DeserializeError::ReadError(
            qbjs_reader::read::ReadError::InvalidLatin1StringDataRange,
        )),
    );
    assert_eq!(qbjs_reader::decode(&content), Err(DecodeError::MalformedLatin1String));
}

#[test]
fn unpaired_surrogate_utf16_document() {
    // A lone lead surrogate 0xD800 is ill-formed UTF-16.
    let mut root = vec![0u8; 12];
    let header_pos = root.len();
    root.extend_from_slice(&[0u8; 4]);
    root.extend_from_slice(&latin1_payload("k"));
    let offset = root.len() as u32;
    root.extend_from_slice(&1u32.to_le_bytes());
    root.extend_from_slice(&0xD800u16.to_le_bytes());
    root.extend_from_slice(&[0, 0]);
    let word = 0x03u32 | 0x10 | (offset << 5);
    root[header_pos..header_pos + 4].copy_from_slice(&word.to_le_bytes());
    let size = root.len() as u32;
    root[0..4].copy_from_slice(&size.to_le_bytes());
    root[4..8].copy_from_slice(&3u32.to_le_bytes());
    root[8..12].copy_from_slice(&size.to_le_bytes());

    let mut content = Vec::new();
    content.extend_from_slice(b"qbjs");
    content.extend_from_slice(&1u32.to_le_bytes());
    content.extend_from_slice(&root);

    assert_eq!(
        deserialize_to_json(&content),
        Err(DeserializeError::ReadError(
            qbjs_reader::read::ReadError::FailedToDecodeUtf16String,
        )),
    );
    assert_eq!(qbjs_reader::decode(&content), Err(DecodeError::MalformedUtf16String));
}

// ---------------------------------------------------------------------------
// Nesting depth.
// ---------------------------------------------------------------------------

fn nested_arrays(depth: usize) -> V {
    let mut v = V::Arr(vec![]);
    for _ in 0..depth {
        v = V::Arr(vec![v]);
    }
    v
}

#[test]
fn moderately_nested_document_decodes() {
    let content = document(V::Obj(vec![("deep", nested_arrays(50))]));
    let mut expected = arr(vec![]);
    for _ in 0..50 {
        expected = arr(vec![expected]);
    }
    assert_eq!(decode_ok(&content), obj(vec![("deep", expected)]));
}

#[test]
fn absurdly_nested_document_is_rejected() {
    let content = document(V::Obj(vec![("deep", nested_arrays(600))]));
    assert_eq!(
        deserialize_to_json(&content),
        Err(DeserializeError::AnalysisError(AnalysisError::DataAnalysisError(
            data::Error::MaximumDepthExceeded,
        ))),
    );
}

// ---------------------------------------------------------------------------
// Robustness: mutated and truncated buffers must decode or fail cleanly,
// never panic or read outside the buffer.
// ---------------------------------------------------------------------------

#[test]
fn mutated_buffers_never_panic() {
    let content = document(V::Obj(vec![
        ("nullObj", V::Null),
        ("aBool", V::Bool(true)),
        ("pi", V::Double(3.14159)),
        ("n", V::Int(-42)),
        ("foo", V::Latin1("bar")),
        ("wide", V::Utf16("xy")),
        ("arr", V::Arr(vec![V::Int(1), V::Latin1("z")])),
        ("obj", V::Obj(vec![("inner", V::Bool(false))])),
    ]));
    for i in 0..content.len() {
        for patch in [0x01u8, 0x20, 0x80, 0xFF] {
            let mut mutated = content.clone();
            mutated[i] ^= patch;
            let _ = qbjs_reader::decode(&mutated);
        }
    }
    for len in 0..content.len() {
        let mut truncated = content.clone();
        truncated.truncate(len);
        let _ = qbjs_reader::decode(&truncated);
    }
}

// ---------------------------------------------------------------------------
// Duplicate keys and key order.
// ---------------------------------------------------------------------------

#[test]
fn duplicate_keys_are_preserved_in_order() {
    let content = document(V::Obj(vec![
        ("k", V::Int(1)),
        ("k", V::Int(2)),
    ]));
    assert_eq!(
        decode_ok(&content),
        obj(vec![("k", JsonValue::Int(1)), ("k", JsonValue::Int(2))]),
    );
}
