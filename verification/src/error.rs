//! The flat error surface of `decode`: one variant per user-visible way a
//! document can be refused, folding the tiered taxonomy down.

use vstd::prelude::*;

use crate::analysis::{data, AnalysisError};
use crate::qbjs::DeserializeError;
use crate::read::ReadError;

verus! {

/// A decode failure, flattened for callers that do not need the tier
/// detail.
#[derive(Debug, Clone, PartialEq, Eq)]
pub enum DecodeError {
    InsufficientData,
    MalformedHeader,
    MalformedLatin1String,
    MalformedUtf16String,
    UnknownValueType,
    InvalidBoolValue,
    InvalidDoubleValue,
    InvalidObject,
    InvalidRootContainer,
}

impl DecodeError {
    /// The flat form of a pipeline failure: header-tier failures become
    /// `MalformedHeader`; unknown type tags become `UnknownValueType`;
    /// the remaining structural and metadata failures, container problems
    /// all, become `InvalidObject`; materialization failures map by the
    /// kind of value that could not be read.
    pub open spec fn spec_from_deserialize(e: DeserializeError) -> DecodeError {
        match e {
            DeserializeError::InsufficientData => DecodeError::InsufficientData,
            DeserializeError::InvalidRootContainer => DecodeError::InvalidRootContainer,
            DeserializeError::AnalysisError(a) => match a {
                AnalysisError::HeaderAnalysisError(_) => DecodeError::MalformedHeader,
                AnalysisError::MetadataAnalysisError(_) => DecodeError::InvalidObject,
                AnalysisError::DataAnalysisError(d) => match d {
                    data::Error::UnknownQtValue => DecodeError::UnknownValueType,
                    _ => DecodeError::InvalidObject,
                },
            },
            DeserializeError::ReadError(r) => match r {
                ReadError::InvalidBoolDataPosition => DecodeError::InvalidBoolValue,
                ReadError::InvalidSelfContainedNumberDataPosition => DecodeError::InvalidDoubleValue,
                ReadError::InvalidNumberDataRange => DecodeError::InvalidDoubleValue,
                ReadError::FailedToDecodeNumber => DecodeError::InvalidDoubleValue,
                ReadError::InvalidLatin1StringDataRange => DecodeError::MalformedLatin1String,
                ReadError::FailedToDecodeLatin1String => DecodeError::MalformedLatin1String,
                ReadError::InvalidUtf16StringDataRange => DecodeError::MalformedUtf16String,
                ReadError::FailedToDecodeUtf16String => DecodeError::MalformedUtf16String,
            },
        }
    }

    /// Flattens a pipeline failure.
    pub fn from_deserialize(e: &DeserializeError) -> (r: DecodeError)
        ensures
            r == DecodeError::spec_from_deserialize(*e),
    {
        match e {
            DeserializeError::InsufficientData => DecodeError::InsufficientData,
            DeserializeError::InvalidRootContainer => DecodeError::InvalidRootContainer,
            DeserializeError::AnalysisError(a) => match a {
                AnalysisError::HeaderAnalysisError(_) => DecodeError::MalformedHeader,
                AnalysisError::MetadataAnalysisError(_) => DecodeError::InvalidObject,
                AnalysisError::DataAnalysisError(d) => match d {
                    data::Error::UnknownQtValue => DecodeError::UnknownValueType,
                    _ => DecodeError::InvalidObject,
                },
            },
            DeserializeError::ReadError(r) => match r {
                ReadError::InvalidBoolDataPosition => DecodeError::InvalidBoolValue,
                ReadError::InvalidSelfContainedNumberDataPosition => DecodeError::InvalidDoubleValue,
                ReadError::InvalidNumberDataRange => DecodeError::InvalidDoubleValue,
                ReadError::FailedToDecodeNumber => DecodeError::InvalidDoubleValue,
                ReadError::InvalidLatin1StringDataRange => DecodeError::MalformedLatin1String,
                ReadError::FailedToDecodeLatin1String => DecodeError::MalformedLatin1String,
                ReadError::InvalidUtf16StringDataRange => DecodeError::MalformedUtf16String,
                ReadError::FailedToDecodeUtf16String => DecodeError::MalformedUtf16String,
            },
        }
    }
}

} // verus!
