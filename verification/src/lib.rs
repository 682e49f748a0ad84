//! Decoder for Qt's binary JSON ("qbjs") document format.
//!
//! A qbjs document is a little-endian, offset-addressed binary encoding of a
//! JSON tree.  Decoding runs in two phases: a structural analysis that walks
//! the raw bytes and records where every value lives (never interpreting
//! payloads), and a materialization phase that turns the recorded positions
//! and ranges into typed JSON values.

pub mod analysis;
pub mod error;
pub mod json;
pub mod qbjs;
pub mod read;
pub mod type_conversions;

use vstd::prelude::*;

use crate::analysis::{header, AnalysisError};
use crate::error::DecodeError;
use crate::json::{JsonModel, JsonValue};
use crate::qbjs::{deserialize_to_json, spec_deserialize, DeserializeError};
use crate::type_conversions::spec_as_u32;

verus! {

/// The decoded form of a whole buffer, with failures flattened to
/// `DecodeError`.
pub open spec fn spec_decode(d: Seq<u8>) -> Result<JsonModel, DecodeError> {
    match spec_deserialize(d) {
        Ok(m) => Ok(m),
        Err(e) => Err(DecodeError::spec_from_deserialize(e)),
    }
}

/// Decodes a qbjs document into a JSON value tree.
///
/// An empty buffer decodes to the empty JSON object by convention; a
/// non-empty buffer shorter than the 8-byte header is `InsufficientData`;
/// any other buffer runs the full analyze-then-materialize pipeline.
/// Verification guarantees the call never panics and never reads outside
/// the supplied buffer, however truncated or mutated the input.
pub fn decode(qbjs: &[u8]) -> (r: Result<JsonValue, DecodeError>)
    ensures
        match r {
            Ok(v) => spec_decode(qbjs@) == Ok::<JsonModel, DecodeError>(v.model()),
            Err(e) => spec_decode(qbjs@) == Err::<JsonModel, DecodeError>(e),
        },
{
    match deserialize_to_json(qbjs) {
        Ok(v) => Ok(v),
        Err(e) => Err(DecodeError::from_deserialize(&e)),
    }
}

/// An empty buffer decodes to the empty JSON object.
pub proof fn lemma_decode_empty(d: Seq<u8>)
    requires
        d.len() == 0,
    ensures
        spec_decode(d) == Ok::<JsonModel, DecodeError>(
            JsonModel::Object { entries: Seq::empty() },
        ),
{
}

/// A non-empty buffer shorter than the 8-byte header is refused as
/// `InsufficientData`.
pub proof fn lemma_decode_insufficient_data(d: Seq<u8>)
    requires
        0 < d.len() < header::HEADER_LENGTH,
    ensures
        spec_decode(d) == Err::<JsonModel, DecodeError>(DecodeError::InsufficientData),
{
}

/// A buffer whose first four bytes do not spell `qbjs` is refused as a
/// malformed header, tagged `InvalidTag` at the analysis tier.
pub proof fn lemma_decode_invalid_tag(d: Seq<u8>)
    requires
        d.len() >= header::HEADER_LENGTH,
        !header::spec_valid_tag(d),
    ensures
        spec_deserialize(d) == Err::<JsonModel, DeserializeError>(
            DeserializeError::AnalysisError(
                AnalysisError::HeaderAnalysisError(header::Error::InvalidTag),
            ),
        ),
        spec_decode(d) == Err::<JsonModel, DecodeError>(DecodeError::MalformedHeader),
{
}

/// A buffer whose version word is anything but 1 is refused as a malformed
/// header, tagged `InvalidVersion` at the analysis tier.  This covers the
/// big-endian marker `0x01000000`: a big-endian document is detected and
/// rejected, never byte-swapped.
pub proof fn lemma_decode_invalid_version(d: Seq<u8>)
    requires
        d.len() >= header::HEADER_LENGTH,
        header::spec_valid_tag(d),
        spec_as_u32(d.subrange(4, 8)) != header::VALID_VERSION,
    ensures
        spec_deserialize(d) == Err::<JsonModel, DeserializeError>(
            DeserializeError::AnalysisError(
                AnalysisError::HeaderAnalysisError(header::Error::InvalidVersion),
            ),
        ),
        spec_decode(d) == Err::<JsonModel, DecodeError>(DecodeError::MalformedHeader),
{
}

/// Decoding is a function of the buffer bytes alone: two decodes of equal
/// buffers give structurally equal results.  Together with `decode`'s own
/// contract this makes decoding the same immutable buffer twice yield equal
/// values.
pub proof fn lemma_decode_deterministic(d1: Seq<u8>, d2: Seq<u8>)
    requires
        d1 == d2,
    ensures
        spec_decode(d1) == spec_decode(d2),
{
}

} // verus!
