//! The decode pipeline: buffer-length guards, the analyze step, the root
//! container check, and the materialize step, with each tier's failure
//! wrapped unchanged.

use vstd::prelude::*;

use crate::analysis::{self, analyze_document, data, header, spec_analyze_document};
use crate::json::{JsonModel, JsonValue};
use crate::read::{self, read_value, spec_read_value};

verus! {

/// A decode failure: a wrapped analysis or materialization failure, or one
/// of the two conditions the entry point checks itself.
#[derive(Debug, Clone, PartialEq, Eq)]
pub enum DeserializeError {
    AnalysisError(analysis::AnalysisError),
    InsufficientData,
    InvalidRootContainer,
    ReadError(read::ReadError),
}

/// The decoded form of a whole buffer: an empty buffer is the empty JSON
/// object by convention; a shorter-than-header buffer is rejected; any
/// other buffer runs analysis, the root container check, and
/// materialization, and the first failure is returned unchanged.
pub open spec fn spec_deserialize(d: Seq<u8>) -> Result<JsonModel, DeserializeError> {
    if d.len() == 0 {
        Ok(JsonModel::Object { entries: Seq::empty() })
    } else if d.len() < header::HEADER_LENGTH {
        Err(DeserializeError::InsufficientData)
    } else {
        match spec_analyze_document(d) {
            Err(e) => Err(DeserializeError::AnalysisError(e)),
            Ok(m) => {
                if m is Array || m is Object {
                    match spec_read_value(d, m) {
                        Ok(j) => Ok(j),
                        Err(e) => Err(DeserializeError::ReadError(e)),
                    }
                } else {
                    Err(DeserializeError::InvalidRootContainer)
                }
            },
        }
    }
}

/// Decodes a qbjs document into a JSON value tree.
pub fn deserialize_to_json(qbjs: &[u8]) -> (r: Result<JsonValue, DeserializeError>)
    ensures
        match r {
            Ok(v) => spec_deserialize(qbjs@) == Ok::<JsonModel, DeserializeError>(v.model()),
            Err(e) => spec_deserialize(qbjs@) == Err::<JsonModel, DeserializeError>(e),
        },
{
    if qbjs.len() == 0 {
        return Ok(JsonValue::empty_object());
    }

    if qbjs.len() < header::HEADER_LENGTH {
        return Err(DeserializeError::InsufficientData);
    }

    let document = match analyze_document(qbjs) {
        Ok(v) => v,
        Err(e) => {
            return Err(DeserializeError::AnalysisError(e));
        },
    };

    match &document {
        data::Value::Array(_) | data::Value::Object(_) => match read_value(qbjs, &document) {
            Ok(v) => Ok(v),
            Err(e) => Err(DeserializeError::ReadError(e)),
        },
        _ => Err(DeserializeError::InvalidRootContainer),
    }
}

} // verus!
