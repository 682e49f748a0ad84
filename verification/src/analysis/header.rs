//! The fixed 8-byte document header: a 4-byte ASCII tag and a 4-byte
//! little-endian version word.

use vstd::prelude::*;

use crate::type_conversions::{as_u32, spec_as_u32};

verus! {

/// Header-tier analysis failures.
#[derive(Debug, Clone, PartialEq, Eq)]
pub enum Error {
    InvalidLength,
    InvalidTag,
    InvalidVersion,
}

pub const HEADER_LENGTH: usize = 8;

/// The version word little-endian documents carry.  The byte-swapped value
/// `0x01000000` marks a big-endian document, which is detected and rejected,
/// never byte-swapped.
pub const VALID_VERSION: u32 = 1;

/// A validated document header.
#[derive(Debug)]
pub struct QbjsHeader {
    pub tag: String,
    pub version: u32,
}

/// Whether the first four bytes of `d` spell the ASCII tag `qbjs`.
pub open spec fn spec_valid_tag(d: Seq<u8>) -> bool {
    d.len() >= 4 && d[0] == 0x71u8 && d[1] == 0x62u8 && d[2] == 0x6au8 && d[3] == 0x73u8
}

/// The failure `QbjsHeader::from_data` reports on `d`, or `None` when the
/// header is valid: the data must hold at least 8 bytes, the tag must be
/// `qbjs` and the version word must be 1.
pub open spec fn spec_header_error(d: Seq<u8>) -> Option<Error> {
    if d.len() < HEADER_LENGTH {
        Some(Error::InvalidLength)
    } else if !spec_valid_tag(d) {
        Some(Error::InvalidTag)
    } else if spec_as_u32(d.subrange(4, 8)) != VALID_VERSION {
        Some(Error::InvalidVersion)
    } else {
        None
    }
}

impl QbjsHeader {
    fn new(tag: String, version: u32) -> (r: Self)
        ensures
            r.tag == tag,
            r.version == version,
    {
        QbjsHeader { tag, version }
    }

    /// Validates the document header at the front of `data`.
    pub fn from_data(data: &[u8]) -> (r: Result<Self, Error>)
        ensures
            match r {
                Ok(h) => {
                    &&& spec_header_error(data@) is None
                    &&& h.tag@ == seq!['q', 'b', 'j', 's']
                    &&& h.version == VALID_VERSION
                },
                Err(e) => spec_header_error(data@) == Some(e),
            },
    {
        if data.len() < HEADER_LENGTH {
            return Err(Error::InvalidLength);
        }

        // 0x71 0x62 0x6a 0x73 are the ASCII codes of the tag `qbjs`.
        let tag_matches = data[0] == 0x71u8 && data[1] == 0x62u8 && data[2] == 0x6au8
            && data[3] == 0x73u8;
        if !tag_matches {
            return Err(Error::InvalidTag);
        }

        let version = as_u32(&data[4..8]);
        if version != VALID_VERSION {
            return Err(Error::InvalidVersion);
        }

        let tag = "qbjs".to_string();
        proof {
            reveal_strlit("qbjs");
            assert(tag@ =~= seq!['q', 'b', 'j', 's']);
        }
        Ok(QbjsHeader::new(tag, version))
    }
}

} // verus!
