//! The fixed-size metadata records of the format: the 12-byte container
//! descriptor that opens every array or object, and the 4-byte value header
//! that describes one element or entry.

use vstd::prelude::*;

use crate::type_conversions::{as_u27, as_u32, spec_as_u27, spec_as_u32};

verus! {

/// Metadata-tier analysis failures.
#[derive(Debug, Clone, PartialEq, Eq)]
pub enum Error {
    InvalidContainerBaseLength,
    InvalidValueHeaderSize,
}

pub const CONTAINER_BASE_LENGTH: usize = 12;

pub const VALUE_HEADER_BYTE_SIZE: usize = 4;

pub const LATIN1_SIZE_FIELD_LENGTH: usize = 2;

pub const LATIN1_CHAR_LENGTH: usize = 1;

pub const UTF16_SIZE_FIELD_LENGTH: usize = 4;

pub const UTF16_CHAR_LENGTH: usize = 2;

/// The decoded 12-byte container descriptor: total encoded byte span of the
/// container, object/array flag, entry or element count, and the byte offset
/// (relative to the container start) of the element header table.
#[derive(Debug)]
pub struct ContainerBase {
    pub size: u32,
    pub is_object: bool,
    pub length: u32,
    pub table_offset: u32,
}

/// The decoded 4-byte value header.  `value_bit_field` holds the 27 high
/// bits of the word: a byte offset from the owning container's start, or a
/// self-contained signed magnitude, depending on the type tag and flag.
#[derive(Debug)]
pub struct ValueHeader {
    pub qt_value_type: u8,
    pub latin_or_int_value_flag: bool,
    pub latin_key_flag: bool,
    pub value_bit_field: u32,
    pub position: usize,
}

/// The container descriptor the first 12 bytes of `d` encode: word 0 is the
/// size, word 1 packs the object flag (bit 0) with the length (bits 1..32),
/// word 2 is the table offset.
pub open spec fn spec_container_base(d: Seq<u8>) -> ContainerBase {
    let object_flag_and_length = spec_as_u32(d.subrange(4, 8));
    ContainerBase {
        size: spec_as_u32(d.subrange(0, 4)),
        is_object: (object_flag_and_length & 0b1u32) != 0,
        length: (object_flag_and_length & !0b1u32) >> 1u32,
        table_offset: spec_as_u32(d.subrange(8, 12)),
    }
}

/// The value header the first 4 bytes of `d` encode, recorded as sitting at
/// `position`: byte 0 packs the 3-bit type tag, the latin-or-int flag
/// (bit 3) and the latin-key flag (bit 4); the full word's 27 high bits are
/// the value bit field.
pub open spec fn spec_value_header(d: Seq<u8>, position: usize) -> ValueHeader {
    ValueHeader {
        qt_value_type: d[0] & 0b111u8,
        latin_or_int_value_flag: (d[0] & (0b1u8 << 3u8)) != 0,
        latin_key_flag: (d[0] & (0b1u8 << 4u8)) != 0,
        value_bit_field: spec_as_u27(spec_as_u32(d)),
        position,
    }
}

impl ContainerBase {
    /// Decodes the container descriptor at the front of `data`.
    pub fn from_data(data: &[u8]) -> (r: Result<Self, Error>)
        ensures
            match r {
                Ok(cb) => data@.len() >= CONTAINER_BASE_LENGTH && cb == spec_container_base(
                    data@,
                ),
                Err(e) => data@.len() < CONTAINER_BASE_LENGTH && e
                    == Error::InvalidContainerBaseLength,
            },
    {
        if data.len() < CONTAINER_BASE_LENGTH {
            return Err(Error::InvalidContainerBaseLength);
        }

        let size = as_u32(&data[0..4]);
        let object_flag_and_length = as_u32(&data[4..8]);
        let is_object = (object_flag_and_length & 0b1u32) != 0;
        let length = (object_flag_and_length & !0b1u32) >> 1u32;
        let table_offset = as_u32(&data[8..12]);

        Ok(ContainerBase { size, is_object, length, table_offset })
    }
}

impl ValueHeader {
    /// Decodes the 4-byte value header at the front of `data`, recording
    /// `position` as the header's absolute offset in the document.
    pub fn from_data(data: &[u8], position: usize) -> (r: Result<Self, Error>)
        ensures
            match r {
                Ok(h) => data@.len() >= VALUE_HEADER_BYTE_SIZE && h == spec_value_header(
                    data@,
                    position,
                ),
                Err(e) => data@.len() < VALUE_HEADER_BYTE_SIZE && e
                    == Error::InvalidValueHeaderSize,
            },
    {
        if data.len() < VALUE_HEADER_BYTE_SIZE {
            return Err(Error::InvalidValueHeaderSize);
        }

        let header = data[0];
        let qt_value_type = header & 0b111u8;
        let latin_or_int_value_flag = (header & (0b1u8 << 3u8)) != 0;
        let latin_key_flag = (header & (0b1u8 << 4u8)) != 0;
        let value_bit_field = as_u27(as_u32(data));

        Ok(ValueHeader {
            qt_value_type,
            latin_or_int_value_flag,
            latin_key_flag,
            value_bit_field,
            position,
        })
    }
}

} // verus!
