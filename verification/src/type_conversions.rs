//! Packing of little-endian bytes into machine words, and extraction of the
//! 27-bit value field that qbjs packs into the high bits of a 4-byte header
//! word (the low 5 bits of such a word carry the type tag and flags).

use vstd::prelude::*;

verus! {

/// Little-endian value of the first (up to) four bytes of `s`.
pub open spec fn spec_as_u32(s: Seq<u8>) -> u32 {
    (if s.len() > 0 {
        s[0] as u32
    } else {
        0u32
    }) | (if s.len() > 1 {
        (s[1] as u32) << 8u32
    } else {
        0u32
    }) | (if s.len() > 2 {
        (s[2] as u32) << 16u32
    } else {
        0u32
    }) | (if s.len() > 3 {
        (s[3] as u32) << 24u32
    } else {
        0u32
    })
}

/// Little-endian value of the first (up to) eight bytes of `s`.
pub open spec fn spec_as_u64(s: Seq<u8>) -> u64 {
    (if s.len() > 0 {
        s[0] as u64
    } else {
        0u64
    }) | (if s.len() > 1 {
        (s[1] as u64) << 8u64
    } else {
        0u64
    }) | (if s.len() > 2 {
        (s[2] as u64) << 16u64
    } else {
        0u64
    }) | (if s.len() > 3 {
        (s[3] as u64) << 24u64
    } else {
        0u64
    }) | (if s.len() > 4 {
        (s[4] as u64) << 32u64
    } else {
        0u64
    }) | (if s.len() > 5 {
        (s[5] as u64) << 40u64
    } else {
        0u64
    }) | (if s.len() > 6 {
        (s[6] as u64) << 48u64
    } else {
        0u64
    }) | (if s.len() > 7 {
        (s[7] as u64) << 56u64
    } else {
        0u64
    })
}

/// The 27 high bits of `raw`, shifted down past the 5 flag bits.
pub open spec fn spec_as_u27(raw: u32) -> u32 {
    raw >> 5u32
}

/// The 27 high bits of `raw` read with the format's sign-flag encoding:
/// bit 26 of the shifted field marks a negative value whose magnitude is
/// `((!field) + 1) mod 2^26`.  This is the format's own convention, not
/// two's complement over 27 bits.
pub open spec fn spec_as_i27(raw: u32) -> i32 {
    let bit_field = raw >> 5u32;
    if bit_field & 0x400_0000u32 != 0 {
        (-(((!bit_field) + 1) % 0x400_0000)) as i32
    } else {
        bit_field as i32
    }
}

/// Packs the first (up to) four bytes of `data` as a little-endian `u32`.
pub fn as_u32(data: &[u8]) -> (r: u32)
    ensures
        r == spec_as_u32(data@),
{
    (if data.len() > 0 {
        data[0] as u32
    } else {
        0u32
    }) | (if data.len() > 1 {
        (data[1] as u32) << 8u32
    } else {
        0u32
    }) | (if data.len() > 2 {
        (data[2] as u32) << 16u32
    } else {
        0u32
    }) | (if data.len() > 3 {
        (data[3] as u32) << 24u32
    } else {
        0u32
    })
}

/// Packs the first (up to) eight bytes of `data` as a little-endian `u64`.
pub fn as_u64(data: &[u8]) -> (r: u64)
    ensures
        r == spec_as_u64(data@),
{
    (if data.len() > 0 {
        data[0] as u64
    } else {
        0u64
    }) | (if data.len() > 1 {
        (data[1] as u64) << 8u64
    } else {
        0u64
    }) | (if data.len() > 2 {
        (data[2] as u64) << 16u64
    } else {
        0u64
    }) | (if data.len() > 3 {
        (data[3] as u64) << 24u64
    } else {
        0u64
    }) | (if data.len() > 4 {
        (data[4] as u64) << 32u64
    } else {
        0u64
    }) | (if data.len() > 5 {
        (data[5] as u64) << 40u64
    } else {
        0u64
    }) | (if data.len() > 6 {
        (data[6] as u64) << 48u64
    } else {
        0u64
    }) | (if data.len() > 7 {
        (data[7] as u64) << 56u64
    } else {
        0u64
    })
}

/// Converts the 27 most significant bits of the `u32` to a signed integer,
/// using the format's sign-flag encoding.  Used to read the bit field of
/// self-contained number headers.
pub fn as_i27(raw_value: u32) -> (r: i32)
    ensures
        r == spec_as_i27(raw_value),
{
    let mask: u32 = u32::MAX & !0b11111u32;
    let bit_field = (raw_value & mask) >> 5u32;
    let sign_mask: u32 = 0b1u32 << 26u32;
    let is_negative_value = bit_field & sign_mask != 0;

    proof {
        assert((raw_value & (u32::MAX & !0b11111u32)) >> 5u32 == raw_value >> 5u32)
            by (bit_vector);
        assert(0b1u32 << 26u32 == 0x400_0000u32) by (bit_vector);
        assert(bit_field & (0b1u32 << 26u32) != 0 ==> !bit_field < 0xFFFF_FFFFu32)
            by (bit_vector);
    }

    if is_negative_value {
        -1 * ((((!bit_field) + 1) % 0x400_0000u32) as i32)
    } else {
        proof {
            assert(raw_value >> 5u32 < 0x800_0000u32) by (bit_vector);
        }
        bit_field as i32
    }
}

/// Converts the 27 most significant bits of the `u32` to an unsigned integer.
/// Used to read the bit field of value headers.
pub fn as_u27(raw_value: u32) -> (r: u32)
    ensures
        r == spec_as_u27(raw_value),
{
    let mask: u32 = u32::MAX & !0b11111u32;
    proof {
        assert((raw_value & (u32::MAX & !0b11111u32)) >> 5u32 == raw_value >> 5u32)
            by (bit_vector);
    }
    (raw_value & mask) >> 5u32
}

} // verus!
