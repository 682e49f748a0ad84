//! Structural analysis of a qbjs document: a recursive-descent walk over the
//! raw bytes that reconstructs where every value lives, without interpreting
//! any character or numeric payload.

pub mod data;
pub mod header;
pub mod metadata;

use vstd::prelude::*;

use crate::analysis::data::{EntryModel, KeyModel, ValueModel};
use crate::analysis::header::HEADER_LENGTH;
use crate::analysis::metadata::{
    CONTAINER_BASE_LENGTH, LATIN1_CHAR_LENGTH, LATIN1_SIZE_FIELD_LENGTH, UTF16_CHAR_LENGTH,
    UTF16_SIZE_FIELD_LENGTH, VALUE_HEADER_BYTE_SIZE,
};
use crate::type_conversions::{as_u32, spec_as_u32};

verus! {

/// An analysis failure, tagged by the tier that detected it.
#[derive(Debug, Clone, PartialEq, Eq)]
pub enum AnalysisError {
    HeaderAnalysisError(header::Error),
    MetadataAnalysisError(metadata::Error),
    DataAnalysisError(data::Error),
}

/// Containers deeper than this bound are rejected with
/// `data::Error::MaximumDepthExceeded`.  The bound is a hardening addition
/// for untrusted input: the budget is spent once per analysis step, so it
/// caps nesting at several hundred container levels, far beyond any
/// practical document.
pub const ANALYSIS_DEPTH_BUDGET: u32 = 1024;

pub const QT_NULL_VALUE: u8 = 0;

pub const QT_BOOL_VALUE: u8 = 1;

pub const QT_NUMBER_VALUE: u8 = 2;

pub const QT_STRING_VALUE: u8 = 3;

pub const QT_ARRAY_VALUE: u8 = 4;

pub const QT_OBJECT_VALUE: u8 = 5;

pub const DOUBLE_VALUE_BYTE_SIZE: usize = 8;

/// `a + b` for byte positions, clamped to the addressable range.  Offsets in
/// a hostile document may point past everything; clamping keeps every
/// computed position representable, and every read through such a position
/// still fails its bounds check.
pub open spec fn sat_add(a: int, b: int) -> int {
    if a + b > usize::MAX {
        usize::MAX as int
    } else {
        a + b
    }
}

/// `a * b` for byte counts, clamped to the addressable range.
pub open spec fn sat_mul(a: int, b: int) -> int {
    if a * b > usize::MAX {
        usize::MAX as int
    } else {
        a * b
    }
}

/// `e` rounded up to the next multiple of 4, clamped to the addressable
/// range: string payloads are zero-padded to 4-byte alignment.
pub open spec fn spec_align4(e: int) -> int {
    if e % 4 == 0 {
        e
    } else {
        sat_add(e, 4 - e % 4)
    }
}

/// Payload start, payload end, and aligned cursor of the Latin-1 string
/// whose 2-byte character count sits at `sfs`: one byte per character.
pub open spec fn spec_latin1_string_field(d: Seq<u8>, sfs: int) -> (int, int, int) {
    let count = spec_as_u32(d.subrange(sfs, sfs + LATIN1_SIZE_FIELD_LENGTH)) as int;
    let start = sfs + LATIN1_SIZE_FIELD_LENGTH;
    let end = sat_add(start, sat_mul(count, LATIN1_CHAR_LENGTH as int));
    (start, end, spec_align4(end))
}

/// Payload start, payload end, and aligned cursor of the UTF-16 string
/// whose 4-byte character count sits at `sfs`: two bytes per character.
pub open spec fn spec_utf16_string_field(d: Seq<u8>, sfs: int) -> (int, int, int) {
    let count = spec_as_u32(d.subrange(sfs, sfs + UTF16_SIZE_FIELD_LENGTH)) as int;
    let start = sfs + UTF16_SIZE_FIELD_LENGTH;
    let end = sat_add(start, sat_mul(count, UTF16_CHAR_LENGTH as int));
    (start, end, spec_align4(end))
}

/// An entry key parsed as a Latin-1 string at `key_start`, with the offset
/// just past its padding.
pub open spec fn spec_analyze_latin1_key(d: Seq<u8>, key_start: int) -> Result<
    (KeyModel, int),
    AnalysisError,
> {
    if key_start + LATIN1_SIZE_FIELD_LENGTH > d.len() {
        Err(AnalysisError::DataAnalysisError(data::Error::InvalidValueLength))
    } else {
        let f = spec_latin1_string_field(d, key_start);
        Ok((KeyModel::Latin1String { start: f.0, end: f.1 }, f.2))
    }
}

/// An entry key parsed as a UTF-16 string at `key_start`, with the offset
/// just past its padding.
pub open spec fn spec_analyze_utf16_key(d: Seq<u8>, key_start: int) -> Result<
    (KeyModel, int),
    AnalysisError,
> {
    if key_start + UTF16_SIZE_FIELD_LENGTH > d.len() {
        Err(AnalysisError::DataAnalysisError(data::Error::InvalidValueLength))
    } else {
        let f = spec_utf16_string_field(d, key_start);
        Ok((KeyModel::Utf16String { start: f.0, end: f.1 }, f.2))
    }
}

/// A Latin-1 string value at `value_start`, with the offset just past its
/// padding.
pub open spec fn spec_analyze_latin1_string_value(d: Seq<u8>, value_start: int) -> Result<
    (ValueModel, int),
    AnalysisError,
> {
    if value_start + LATIN1_SIZE_FIELD_LENGTH > d.len() {
        Err(AnalysisError::DataAnalysisError(data::Error::InvalidValueLength))
    } else {
        let f = spec_latin1_string_field(d, value_start);
        Ok((ValueModel::Latin1String { start: f.0, end: f.1 }, f.2))
    }
}

/// A UTF-16 string value at `value_start`, with the offset just past its
/// padding.
pub open spec fn spec_analyze_utf16_string_value(d: Seq<u8>, value_start: int) -> Result<
    (ValueModel, int),
    AnalysisError,
> {
    if value_start + UTF16_SIZE_FIELD_LENGTH > d.len() {
        Err(AnalysisError::DataAnalysisError(data::Error::InvalidValueLength))
    } else {
        let f = spec_utf16_string_field(d, value_start);
        Ok((ValueModel::Utf16String { start: f.0, end: f.1 }, f.2))
    }
}

/// The out-of-line 8-byte double addressed by a number header: its range,
/// and the offset just past it.
pub open spec fn spec_analyze_double_value(container_start: int, bit_field: int) -> (
    ValueModel,
    int,
) {
    let start = sat_add(container_start, bit_field);
    let end = sat_add(start, DOUBLE_VALUE_BYTE_SIZE as int);
    (ValueModel::Number { start, end }, end)
}

/// Resolves the value a header describes, using `container_start` as the
/// base of the header's offset field.  Returns the value's position tree
/// and the offset just past its out-of-line bytes (or past the header word
/// itself for self-contained values).
pub open spec fn spec_analyze_value(
    d: Seq<u8>,
    h: metadata::ValueHeader,
    container_start: int,
    fuel: nat,
) -> Result<(ValueModel, int), AnalysisError>
    decreases fuel, 1int, 0int,
{
    if fuel == 0 {
        Err(AnalysisError::DataAnalysisError(data::Error::MaximumDepthExceeded))
    } else {
        let header_end = h.position + VALUE_HEADER_BYTE_SIZE;
        if h.qt_value_type == QT_NULL_VALUE {
            Ok((ValueModel::Null { pos: h.position as int }, header_end))
        } else if h.qt_value_type == QT_BOOL_VALUE {
            Ok((ValueModel::Bool { pos: h.position as int }, header_end))
        } else if h.qt_value_type == QT_NUMBER_VALUE {
            if h.latin_or_int_value_flag {
                Ok((ValueModel::SelfContainedNumber { pos: h.position as int }, header_end))
            } else {
                Ok(spec_analyze_double_value(container_start, h.value_bit_field as int))
            }
        } else if h.qt_value_type == QT_STRING_VALUE {
            let value_start = sat_add(container_start, h.value_bit_field as int);
            if h.latin_or_int_value_flag {
                spec_analyze_latin1_string_value(d, value_start)
            } else {
                spec_analyze_utf16_string_value(d, value_start)
            }
        } else if h.qt_value_type == QT_ARRAY_VALUE {
            spec_analyze_array(d, sat_add(container_start, h.value_bit_field as int), (fuel - 1) as nat)
        } else if h.qt_value_type == QT_OBJECT_VALUE {
            spec_analyze_object(d, sat_add(container_start, h.value_bit_field as int), (fuel - 1) as nat)
        } else {
            Err(AnalysisError::DataAnalysisError(data::Error::UnknownQtValue))
        }
    }
}

/// The models of the first `n` elements of the header table at `table`,
/// read with stride 4 and resolved against `base_start`.
pub open spec fn spec_analyze_array_elems(
    d: Seq<u8>,
    base_start: int,
    table: int,
    n: int,
    fuel: nat,
) -> Result<Seq<ValueModel>, AnalysisError>
    decreases fuel, 0int, n,
{
    if fuel == 0 {
        Err(AnalysisError::DataAnalysisError(data::Error::MaximumDepthExceeded))
    } else if n <= 0 {
        Ok(Seq::empty())
    } else {
        match spec_analyze_array_elems(d, base_start, table, n - 1, fuel) {
            Err(e) => Err(e),
            Ok(vs) => {
                let hpos = table + VALUE_HEADER_BYTE_SIZE * (n - 1);
                if hpos + VALUE_HEADER_BYTE_SIZE > d.len() {
                    Err(AnalysisError::MetadataAnalysisError(metadata::Error::InvalidValueHeaderSize))
                } else {
                    let h = metadata::spec_value_header(
                        d.subrange(hpos, hpos + VALUE_HEADER_BYTE_SIZE),
                        hpos as usize,
                    );
                    match spec_analyze_value(d, h, base_start, (fuel - 1) as nat) {
                        Ok(p) => Ok(vs.push(p.0)),
                        Err(e) => Err(e),
                    }
                }
            },
        }
    }
}

/// The array container at `base_start`: its element models and the offset
/// just past the container's declared size.
pub open spec fn spec_analyze_array(d: Seq<u8>, base_start: int, fuel: nat) -> Result<
    (ValueModel, int),
    AnalysisError,
>
    decreases fuel, 1int, 0int,
{
    if fuel == 0 {
        Err(AnalysisError::DataAnalysisError(data::Error::MaximumDepthExceeded))
    } else if base_start + CONTAINER_BASE_LENGTH > d.len() {
        Err(AnalysisError::MetadataAnalysisError(metadata::Error::InvalidContainerBaseLength))
    } else {
        let info = metadata::spec_container_base(
            d.subrange(base_start, base_start + CONTAINER_BASE_LENGTH),
        );
        if info.is_object {
            Err(AnalysisError::DataAnalysisError(data::Error::InvalidArrayContainer))
        } else {
            let table = sat_add(base_start, info.table_offset as int);
            match spec_analyze_array_elems(d, base_start, table, info.length as int, fuel) {
                Ok(values) => Ok(
                    (ValueModel::Array { values }, sat_add(base_start, info.size as int)),
                ),
                Err(e) => Err(e),
            }
        }
    }
}

/// One object entry at `entry_start`: a value header, the key packed right
/// after it, and the value resolved against `object_start`.  The entry's
/// end is the key's end for self-contained values, else the value's end.
pub open spec fn spec_analyze_entry(
    d: Seq<u8>,
    entry_start: int,
    object_start: int,
    fuel: nat,
) -> Result<(EntryModel, int), AnalysisError>
    decreases fuel, 1int, 0int,
{
    if fuel == 0 {
        Err(AnalysisError::DataAnalysisError(data::Error::MaximumDepthExceeded))
    } else if entry_start + VALUE_HEADER_BYTE_SIZE > d.len() {
        Err(AnalysisError::MetadataAnalysisError(metadata::Error::InvalidValueHeaderSize))
    } else {
        let header_end = entry_start + VALUE_HEADER_BYTE_SIZE;
        let h = metadata::spec_value_header(
            d.subrange(entry_start, header_end),
            entry_start as usize,
        );
        let key_result = if h.latin_key_flag {
            spec_analyze_latin1_key(d, header_end)
        } else {
            spec_analyze_utf16_key(d, header_end)
        };
        match key_result {
            Err(e) => Err(e),
            Ok((key, key_end)) => match spec_analyze_value(d, h, object_start, (fuel - 1) as nat) {
                Err(e) => Err(e),
                Ok((value, value_end)) => {
                    let entry_end = match value {
                        ValueModel::Null { .. } => key_end,
                        ValueModel::Bool { .. } => key_end,
                        ValueModel::SelfContainedNumber { .. } => key_end,
                        _ => value_end,
                    };
                    Ok((EntryModel { key, value }, entry_end))
                },
            },
        }
    }
}

/// The models of the first `n` entries of an object, packed one after
/// another from `first_offset`, together with the offset past the last one.
pub open spec fn spec_analyze_object_entries(
    d: Seq<u8>,
    object_start: int,
    first_offset: int,
    n: int,
    fuel: nat,
) -> Result<(Seq<EntryModel>, int), AnalysisError>
    decreases fuel, 0int, n,
{
    if fuel == 0 {
        Err(AnalysisError::DataAnalysisError(data::Error::MaximumDepthExceeded))
    } else if n <= 0 {
        Ok((Seq::empty(), first_offset))
    } else {
        match spec_analyze_object_entries(d, object_start, first_offset, n - 1, fuel) {
            Err(e) => Err(e),
            Ok((rest, offset)) => match spec_analyze_entry(d, offset, object_start, (fuel - 1) as nat) {
                Ok((entry, entry_end)) => Ok((rest.push(entry), entry_end)),
                Err(e) => Err(e),
            },
        }
    }
}

/// The object container at `base_start`: its entry models and the offset
/// just past the container's declared size.
pub open spec fn spec_analyze_object(d: Seq<u8>, base_start: int, fuel: nat) -> Result<
    (ValueModel, int),
    AnalysisError,
>
    decreases fuel, 1int, 0int,
{
    if fuel == 0 {
        Err(AnalysisError::DataAnalysisError(data::Error::MaximumDepthExceeded))
    } else if base_start + CONTAINER_BASE_LENGTH > d.len() {
        Err(AnalysisError::MetadataAnalysisError(metadata::Error::InvalidContainerBaseLength))
    } else {
        let info = metadata::spec_container_base(
            d.subrange(base_start, base_start + CONTAINER_BASE_LENGTH),
        );
        if !info.is_object {
            Err(AnalysisError::DataAnalysisError(data::Error::InvalidObjectContainer))
        } else {
            match spec_analyze_object_entries(
                d,
                base_start,
                base_start + CONTAINER_BASE_LENGTH,
                info.length as int,
                fuel,
            ) {
                Ok((entries, _)) => Ok(
                    (ValueModel::Object { entries }, sat_add(base_start, info.size as int)),
                ),
                Err(e) => Err(e),
            }
        }
    }
}

/// The whole-document analysis: a valid header at offset 0, then the root
/// container at offset 8, analyzed as whichever kind its descriptor's
/// object flag declares.
pub open spec fn spec_analyze_document(d: Seq<u8>) -> Result<ValueModel, AnalysisError> {
    match header::spec_header_error(d) {
        Some(e) => Err(AnalysisError::HeaderAnalysisError(e)),
        None => {
            if HEADER_LENGTH + CONTAINER_BASE_LENGTH > d.len() {
                Err(AnalysisError::MetadataAnalysisError(metadata::Error::InvalidContainerBaseLength))
            } else {
                let info = metadata::spec_container_base(
                    d.subrange(HEADER_LENGTH as int, (HEADER_LENGTH + CONTAINER_BASE_LENGTH) as int),
                );
                let result = if info.is_object {
                    spec_analyze_object(d, HEADER_LENGTH as int, ANALYSIS_DEPTH_BUDGET as nat)
                } else {
                    spec_analyze_array(d, HEADER_LENGTH as int, ANALYSIS_DEPTH_BUDGET as nat)
                };
                match result {
                    Ok((v, _)) => Ok(v),
                    Err(e) => Err(e),
                }
            }
        },
    }
}

fn sat_add_usize(a: usize, b: usize) -> (r: usize)
    ensures
        r as int == sat_add(a as int, b as int),
{
    a.saturating_add(b)
}

fn sat_mul_usize(a: usize, b: usize) -> (r: usize)
    ensures
        r as int == sat_mul(a as int, b as int),
{
    match a.checked_mul(b) {
        Some(r) => r,
        None => usize::MAX,
    }
}

fn align4_usize(e: usize) -> (r: usize)
    ensures
        r as int == spec_align4(e as int),
{
    // Strings are filled with 0 to be aligned to 4 bytes.
    let rem = e % 4;
    if rem == 0 {
        e
    } else {
        e.saturating_add(4 - rem)
    }
}

/// Computes the Latin-1 string field whose 2-byte size field starts at
/// `string_field_start`: the payload range and the aligned cursor past it.
fn analyze_latin1_string(data: &[u8], string_field_start: usize) -> (r: (data::ByteField, usize))
    requires
        string_field_start + LATIN1_SIZE_FIELD_LENGTH <= data@.len(),
    ensures
        ({
            let f = spec_latin1_string_field(data@, string_field_start as int);
            r.0.start as int == f.0 && r.0.end as int == f.1 && r.1 as int == f.2
        }),
{
    let buffer_length = data.len();
    proof {
        assert(string_field_start + LATIN1_SIZE_FIELD_LENGTH <= buffer_length);
    }
    let size_field = &data[string_field_start..string_field_start + LATIN1_SIZE_FIELD_LENGTH];
    let string_field_length = as_u32(size_field) as usize;
    let string_data_start = string_field_start + LATIN1_SIZE_FIELD_LENGTH;
    let string_data_end = sat_add_usize(
        string_data_start,
        sat_mul_usize(string_field_length, LATIN1_CHAR_LENGTH),
    );
    let aligned_string_data_end = align4_usize(string_data_end);
    (data::ByteField { start: string_data_start, end: string_data_end }, aligned_string_data_end)
}

/// Computes the UTF-16 string field whose 4-byte size field starts at
/// `string_field_start`: the payload range and the aligned cursor past it.
fn analyze_utf16_string(data: &[u8], string_field_start: usize) -> (r: (data::ByteField, usize))
    requires
        string_field_start + UTF16_SIZE_FIELD_LENGTH <= data@.len(),
    ensures
        ({
            let f = spec_utf16_string_field(data@, string_field_start as int);
            r.0.start as int == f.0 && r.0.end as int == f.1 && r.1 as int == f.2
        }),
{
    let buffer_length = data.len();
    proof {
        assert(string_field_start + UTF16_SIZE_FIELD_LENGTH <= buffer_length);
    }
    let size_field = &data[string_field_start..string_field_start + UTF16_SIZE_FIELD_LENGTH];
    let string_field_length = as_u32(size_field) as usize;
    let string_data_start = string_field_start + UTF16_SIZE_FIELD_LENGTH;
    let string_data_end = sat_add_usize(
        string_data_start,
        sat_mul_usize(string_field_length, UTF16_CHAR_LENGTH),
    );
    let aligned_string_data_end = align4_usize(string_data_end);
    (data::ByteField { start: string_data_start, end: string_data_end }, aligned_string_data_end)
}

fn analyze_latin1_key(data: &[u8], key_start: usize) -> (r: Result<(data::Key, usize), AnalysisError>)
    ensures
        match r {
            Ok((key, key_end)) => spec_analyze_latin1_key(data@, key_start as int) == Ok::<
                (KeyModel, int),
                AnalysisError,
            >((key.model(), key_end as int)),
            Err(e) => spec_analyze_latin1_key(data@, key_start as int) == Err::<
                (KeyModel, int),
                AnalysisError,
            >(e),
        },
{
    if LATIN1_SIZE_FIELD_LENGTH > data.len() || key_start > data.len() - LATIN1_SIZE_FIELD_LENGTH {
        return Err(AnalysisError::data(data::Error::InvalidValueLength));
    }

    let (bytefield, key_end) = analyze_latin1_string(data, key_start);
    Ok((data::Key::Latin1String(bytefield), key_end))
}

fn analyze_utf16_key(data: &[u8], key_start: usize) -> (r: Result<(data::Key, usize), AnalysisError>)
    ensures
        match r {
            Ok((key, key_end)) => spec_analyze_utf16_key(data@, key_start as int) == Ok::<
                (KeyModel, int),
                AnalysisError,
            >((key.model(), key_end as int)),
            Err(e) => spec_analyze_utf16_key(data@, key_start as int) == Err::<
                (KeyModel, int),
                AnalysisError,
            >(e),
        },
{
    if UTF16_SIZE_FIELD_LENGTH > data.len() || key_start > data.len() - UTF16_SIZE_FIELD_LENGTH {
        return Err(AnalysisError::data(data::Error::InvalidValueLength));
    }

    let (bytefield, key_end) = analyze_utf16_string(data, key_start);
    Ok((data::Key::Utf16String(bytefield), key_end))
}

fn analyze_latin1_string_value(data: &[u8], value_start: usize) -> (r: Result<
    (data::Value, usize),
    AnalysisError,
>)
    ensures
        value_result_matches(r, spec_analyze_latin1_string_value(data@, value_start as int)),
{
    if LATIN1_SIZE_FIELD_LENGTH > data.len() || value_start > data.len()
        - LATIN1_SIZE_FIELD_LENGTH {
        return Err(AnalysisError::data(data::Error::InvalidValueLength));
    }

    let (bytefield, value_end) = analyze_latin1_string(data, value_start);
    Ok((data::Value::Latin1String(bytefield), value_end))
}

fn analyze_utf16_string_value(data: &[u8], value_start: usize) -> (r: Result<
    (data::Value, usize),
    AnalysisError,
>)
    ensures
        value_result_matches(r, spec_analyze_utf16_string_value(data@, value_start as int)),
{
    if UTF16_SIZE_FIELD_LENGTH > data.len() || value_start > data.len() - UTF16_SIZE_FIELD_LENGTH {
        return Err(AnalysisError::data(data::Error::InvalidValueLength));
    }

    let (bytefield, value_end) = analyze_utf16_string(data, value_start);
    Ok((data::Value::Utf16String(bytefield), value_end))
}

/// Records the out-of-line 8-byte double a number header addresses.
fn analyze_double_value(header: &metadata::ValueHeader, container_start: usize) -> (r: (
    data::Value,
    usize,
))
    ensures
        ({
            let s = spec_analyze_double_value(container_start as int, header.value_bit_field as int);
            r.0.model() == s.0 && r.1 as int == s.1
        }),
{
    let data_start = sat_add_usize(container_start, header.value_bit_field as usize);
    let data_end = sat_add_usize(data_start, DOUBLE_VALUE_BYTE_SIZE);
    (data::Value::Number(data::ByteField { start: data_start, end: data_end }), data_end)
}

/// Relates an executable analysis result to its model: same success or
/// failure, same model tree, same end offset.
pub open spec fn value_result_matches(
    r: Result<(data::Value, usize), AnalysisError>,
    s: Result<(ValueModel, int), AnalysisError>,
) -> bool {
    match (r, s) {
        (Ok(p), Ok(q)) => q.0 == p.0.model() && q.1 == p.1 as int,
        (Err(e1), Err(e2)) => e1 == e2,
        _ => false,
    }
}

/// Relates an executable entry-analysis result to its model.
pub open spec fn entry_result_matches(
    r: Result<(data::Entry, usize), AnalysisError>,
    s: Result<(EntryModel, int), AnalysisError>,
) -> bool {
    match (r, s) {
        (Ok(p), Ok(q)) => q.0 == p.0.model() && q.1 == p.1 as int,
        (Err(e1), Err(e2)) => e1 == e2,
        _ => false,
    }
}

/// An error among the first `j` table elements is the error of every longer
/// prefix as well.
proof fn lemma_array_elems_error(
    d: Seq<u8>,
    base_start: int,
    table: int,
    j: int,
    n: int,
    fuel: nat,
)
    requires
        0 <= j <= n,
        spec_analyze_array_elems(d, base_start, table, j, fuel) is Err,
    ensures
        spec_analyze_array_elems(d, base_start, table, n, fuel) == spec_analyze_array_elems(
            d,
            base_start,
            table,
            j,
            fuel,
        ),
    decreases n,
{
    if n > j {
        lemma_array_elems_error(d, base_start, table, j, n - 1, fuel);
    }
}

/// An error among the first `j` object entries is the error of every longer
/// prefix as well.
proof fn lemma_object_entries_error(
    d: Seq<u8>,
    object_start: int,
    first_offset: int,
    j: int,
    n: int,
    fuel: nat,
)
    requires
        0 <= j <= n,
        spec_analyze_object_entries(d, object_start, first_offset, j, fuel) is Err,
    ensures
        spec_analyze_object_entries(d, object_start, first_offset, n, fuel)
            == spec_analyze_object_entries(d, object_start, first_offset, j, fuel),
    decreases n,
{
    if n > j {
        lemma_object_entries_error(d, object_start, first_offset, j, n - 1, fuel);
    }
}

/// Resolves the value `header` describes, with `container_start` as the
/// base of the header's offset field.
fn analyze_value(
    data: &[u8],
    header: &metadata::ValueHeader,
    container_start: usize,
    fuel: u32,
) -> (r: Result<(data::Value, usize), AnalysisError>)
    requires
        header.position + VALUE_HEADER_BYTE_SIZE <= data@.len(),
    ensures
        value_result_matches(
            r,
            spec_analyze_value(data@, *header, container_start as int, fuel as nat),
        ),
    decreases fuel, 1int, 0int,
{
    if fuel == 0 {
        return Err(AnalysisError::data(data::Error::MaximumDepthExceeded));
    }

    let buffer_length = data.len();
    proof {
        assert(header.position + VALUE_HEADER_BYTE_SIZE <= buffer_length);
    }
    let header_end = header.position + VALUE_HEADER_BYTE_SIZE;
    if header.qt_value_type == QT_NULL_VALUE {
        Ok((data::Value::Null(header.position), header_end))
    } else if header.qt_value_type == QT_BOOL_VALUE {
        Ok((data::Value::Bool(header.position), header_end))
    } else if header.qt_value_type == QT_NUMBER_VALUE {
        if header.latin_or_int_value_flag {
            Ok((data::Value::SelfContainedNumber(header.position), header_end))
        } else {
            Ok(analyze_double_value(header, container_start))
        }
    } else if header.qt_value_type == QT_STRING_VALUE {
        let value_range_start = sat_add_usize(container_start, header.value_bit_field as usize);
        if header.latin_or_int_value_flag {
            analyze_latin1_string_value(data, value_range_start)
        } else {
            analyze_utf16_string_value(data, value_range_start)
        }
    } else if header.qt_value_type == QT_ARRAY_VALUE {
        let value_range_start = sat_add_usize(container_start, header.value_bit_field as usize);
        analyze_array(data, value_range_start, fuel - 1)
    } else if header.qt_value_type == QT_OBJECT_VALUE {
        let value_range_start = sat_add_usize(container_start, header.value_bit_field as usize);
        analyze_object(data, value_range_start, fuel - 1)
    } else {
        Err(AnalysisError::data(data::Error::UnknownQtValue))
    }
}

/// Analyzes the array container at `base_start`: reads `length` value
/// headers from the table at `base_start + table_offset` with stride 4 and
/// resolves each against `base_start`.
fn analyze_array(data: &[u8], base_start: usize, fuel: u32) -> (r: Result<
    (data::Value, usize),
    AnalysisError,
>)
    ensures
        value_result_matches(r, spec_analyze_array(data@, base_start as int, fuel as nat)),
    decreases fuel, 1int, 0int,
{
    if fuel == 0 {
        return Err(AnalysisError::data(data::Error::MaximumDepthExceeded));
    }

    let buffer_length = data.len();
    if CONTAINER_BASE_LENGTH > buffer_length || base_start > buffer_length
        - CONTAINER_BASE_LENGTH {
        return Err(AnalysisError::metadata(metadata::Error::InvalidContainerBaseLength));
    }
    let base_end = base_start + CONTAINER_BASE_LENGTH;

    let array_info = match metadata::ContainerBase::from_data(&data[base_start..base_end]) {
        Ok(info) => info,
        Err(e) => {
            return Err(AnalysisError::metadata(e));
        },
    };

    if array_info.is_object {
        return Err(AnalysisError::data(data::Error::InvalidArrayContainer));
    }

    let nb_values = array_info.length as usize;
    let mut values: Vec<data::Value> = Vec::new();

    let table_start = sat_add_usize(base_start, array_info.table_offset as usize);
    let ghost table_s: int = sat_add(base_start as int, array_info.table_offset as int);

    proof {
        assert(data::seq_model(values@) =~= Seq::<ValueModel>::empty());
    }

    let mut offset = table_start;
    let mut i: usize = 0;
    while i < nb_values
        invariant
            i <= nb_values,
            fuel >= 1,
            buffer_length == data@.len(),
            base_start + CONTAINER_BASE_LENGTH <= data@.len(),
            array_info == metadata::spec_container_base(
                data@.subrange(base_start as int, base_start + CONTAINER_BASE_LENGTH),
            ),
            !array_info.is_object,
            nb_values == array_info.length,
            table_s == sat_add(base_start as int, array_info.table_offset as int),
            offset as int == table_s + VALUE_HEADER_BYTE_SIZE * i,
            spec_analyze_array_elems(data@, base_start as int, table_s, i as int, fuel as nat)
                == Ok::<Seq<ValueModel>, AnalysisError>(data::seq_model(values@)),
        decreases nb_values - i,
    {
        let header_start = offset;
        if VALUE_HEADER_BYTE_SIZE > buffer_length || header_start > buffer_length
            - VALUE_HEADER_BYTE_SIZE {
            proof {
                lemma_array_elems_error(
                    data@,
                    base_start as int,
                    table_s,
                    i + 1,
                    nb_values as int,
                    fuel as nat,
                );
            }
            return Err(AnalysisError::metadata(metadata::Error::InvalidValueHeaderSize));
        }
        let header_end = header_start + VALUE_HEADER_BYTE_SIZE;

        let header = match metadata::ValueHeader::from_data(
            &data[header_start..header_end],
            header_start,
        ) {
            Ok(h) => h,
            Err(e) => {
                return Err(AnalysisError::metadata(e));
            },
        };

        let ghost values_snapshot = values@;
        match analyze_value(data, &header, base_start, fuel - 1) {
            Ok((value, _)) => {
                proof {
                    data::lemma_seq_model_push(values_snapshot, value);
                }
                values.push(value);
            },
            Err(e) => {
                proof {
                    lemma_array_elems_error(
                        data@,
                        base_start as int,
                        table_s,
                        i + 1,
                        nb_values as int,
                        fuel as nat,
                    );
                }
                return Err(e);
            },
        }

        offset = header_end;
        i = i + 1;
    }

    let end_offset = sat_add_usize(base_start, array_info.size as usize);
    Ok((data::Value::Array(data::Array { values }), end_offset))
}

/// Analyzes the object container at `base_start`: decodes `length` entries
/// packed one after another right behind the 12-byte descriptor.
fn analyze_object(data: &[u8], base_start: usize, fuel: u32) -> (r: Result<
    (data::Value, usize),
    AnalysisError,
>)
    ensures
        value_result_matches(r, spec_analyze_object(data@, base_start as int, fuel as nat)),
    decreases fuel, 1int, 0int,
{
    if fuel == 0 {
        return Err(AnalysisError::data(data::Error::MaximumDepthExceeded));
    }

    let buffer_length = data.len();
    if CONTAINER_BASE_LENGTH > buffer_length || base_start > buffer_length
        - CONTAINER_BASE_LENGTH {
        return Err(AnalysisError::metadata(metadata::Error::InvalidContainerBaseLength));
    }
    let base_end = base_start + CONTAINER_BASE_LENGTH;

    let object_info = match metadata::ContainerBase::from_data(&data[base_start..base_end]) {
        Ok(info) => info,
        Err(e) => {
            return Err(AnalysisError::metadata(e));
        },
    };

    if !object_info.is_object {
        return Err(AnalysisError::data(data::Error::InvalidObjectContainer));
    }

    let nb_entries = object_info.length as usize;
    let mut entries: Vec<data::Entry> = Vec::new();

    proof {
        assert(data::entries_model(entries@) =~= Seq::<EntryModel>::empty());
    }

    let mut offset = base_end;
    let mut i: usize = 0;
    while i < nb_entries
        invariant
            i <= nb_entries,
            fuel >= 1,
            buffer_length == data@.len(),
            base_start + CONTAINER_BASE_LENGTH <= data@.len(),
            base_end == base_start + CONTAINER_BASE_LENGTH,
            object_info == metadata::spec_container_base(
                data@.subrange(base_start as int, base_start + CONTAINER_BASE_LENGTH),
            ),
            object_info.is_object,
            nb_entries == object_info.length,
            spec_analyze_object_entries(
                data@,
                base_start as int,
                base_end as int,
                i as int,
                fuel as nat,
            ) == Ok::<(Seq<EntryModel>, int), AnalysisError>(
                (data::entries_model(entries@), offset as int),
            ),
        decreases nb_entries - i,
    {
        let ghost entries_snapshot = entries@;
        match analyze_entry(data, offset, base_start, fuel - 1) {
            Ok((entry, entry_end)) => {
                proof {
                    data::lemma_entries_model_push(entries_snapshot, entry);
                }
                entries.push(entry);
                offset = entry_end;
            },
            Err(e) => {
                proof {
                    lemma_object_entries_error(
                        data@,
                        base_start as int,
                        base_end as int,
                        i + 1,
                        nb_entries as int,
                        fuel as nat,
                    );
                }
                return Err(e);
            },
        }

        i = i + 1;
    }

    let end_offset = sat_add_usize(base_start, object_info.size as usize);
    Ok((data::Value::Object(data::Object { entries }), end_offset))
}

/// Analyzes one object entry at `entry_start`: the value header, the key
/// packed right after it, and the value resolved against `object_start`.
fn analyze_entry(data: &[u8], entry_start: usize, object_start: usize, fuel: u32) -> (r: Result<
    (data::Entry, usize),
    AnalysisError,
>)
    ensures
        entry_result_matches(
            r,
            spec_analyze_entry(data@, entry_start as int, object_start as int, fuel as nat),
        ),
    decreases fuel, 1int, 0int,
{
    if fuel == 0 {
        return Err(AnalysisError::data(data::Error::MaximumDepthExceeded));
    }

    let buffer_length = data.len();
    if VALUE_HEADER_BYTE_SIZE > buffer_length || entry_start > buffer_length
        - VALUE_HEADER_BYTE_SIZE {
        return Err(AnalysisError::metadata(metadata::Error::InvalidValueHeaderSize));
    }
    let header_end = entry_start + VALUE_HEADER_BYTE_SIZE;

    let header = match metadata::ValueHeader::from_data(&data[entry_start..header_end], entry_start) {
        Ok(h) => h,
        Err(e) => {
            return Err(AnalysisError::metadata(e));
        },
    };

    let key_result = if header.latin_key_flag {
        analyze_latin1_key(data, header_end)
    } else {
        analyze_utf16_key(data, header_end)
    };
    let (key, key_end) = match key_result {
        Ok(p) => p,
        Err(e) => {
            return Err(e);
        },
    };

    let (value, value_end) = match analyze_value(data, &header, object_start, fuel - 1) {
        Ok(p) => p,
        Err(e) => {
            return Err(e);
        },
    };

    let entry_end = match value {
        data::Value::Null(_) | data::Value::Bool(_) | data::Value::SelfContainedNumber(_) => key_end,
        _ => value_end,
    };

    Ok((data::Entry { key, value }, entry_end))
}

/// Analyzes a whole document: validates the 8-byte header, then analyzes
/// the root container at offset 8 as whichever kind its descriptor's
/// object flag declares.
pub fn analyze_document(data: &[u8]) -> (r: Result<data::Value, AnalysisError>)
    ensures
        match r {
            Ok(v) => spec_analyze_document(data@) == Ok::<ValueModel, AnalysisError>(v.model()),
            Err(e) => spec_analyze_document(data@) == Err::<ValueModel, AnalysisError>(e),
        },
{
    let buffer_length = data.len();
    if buffer_length < HEADER_LENGTH {
        return Err(AnalysisError::header(header::Error::InvalidLength));
    }

    proof {
        assert(data@.subrange(0, HEADER_LENGTH as int).subrange(4, 8) =~= data@.subrange(4, 8));
    }
    match header::QbjsHeader::from_data(&data[0..HEADER_LENGTH]) {
        Ok(_) => {},
        Err(e) => {
            return Err(AnalysisError::header(e));
        },
    }

    if buffer_length < HEADER_LENGTH + CONTAINER_BASE_LENGTH {
        return Err(AnalysisError::metadata(metadata::Error::InvalidContainerBaseLength));
    }

    let container_base = match metadata::ContainerBase::from_data(
        &data[HEADER_LENGTH..HEADER_LENGTH + CONTAINER_BASE_LENGTH],
    ) {
        Ok(cb) => cb,
        Err(e) => {
            return Err(AnalysisError::metadata(e));
        },
    };

    let result = if container_base.is_object {
        analyze_object(data, HEADER_LENGTH, ANALYSIS_DEPTH_BUDGET)
    } else {
        analyze_array(data, HEADER_LENGTH, ANALYSIS_DEPTH_BUDGET)
    };

    match result {
        Ok((value, _)) => Ok(value),
        Err(e) => Err(e),
    }
}

impl AnalysisError {
    pub fn header(err: header::Error) -> (r: Self)
        ensures
            r == AnalysisError::HeaderAnalysisError(err),
    {
        AnalysisError::HeaderAnalysisError(err)
    }

    pub fn metadata(err: metadata::Error) -> (r: Self)
        ensures
            r == AnalysisError::MetadataAnalysisError(err),
    {
        AnalysisError::MetadataAnalysisError(err)
    }

    pub fn data(err: data::Error) -> (r: Self)
        ensures
            r == AnalysisError::DataAnalysisError(err),
    {
        AnalysisError::DataAnalysisError(err)
    }
}

} // verus!
