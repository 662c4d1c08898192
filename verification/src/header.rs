//! The fixed 8-byte CTMP frame header: decoding and structural validation.
//!
//! Wire layout (all multi-byte fields big-endian):
//! byte 0 magic (must be 0xCC), byte 1 options (bit 6 marks a sensitive
//! frame), bytes 2-3 payload length, bytes 4-5 checksum, bytes 6-7 padding
//! (must be zero).

use vstd::prelude::*;

verus! {

/// The sentinel that byte 0 of every structurally valid frame must carry.
pub const MAGIC: u8 = 0xCC;

/// The mask for the options bit that marks a frame as sensitive.
pub const SENSITIVE_MASK: u8 = 0x40;

/// The number of bytes in a frame header.
pub const HEADER_SIZE: usize = 8;

/// A parsed CTMP frame header.
pub struct Header {
    pub magic: u8,
    pub options: u8,
    pub length: u16,
    pub checksum: u16,
    pub padding: u16,
}

/// The 16-bit big-endian word formed from two bytes.
pub open spec fn word16(hi: u8, lo: u8) -> u16 {
    (hi * 256 + lo) as u16
}

/// The header that an 8-byte buffer decodes to.
pub open spec fn spec_from_bytes(b: Seq<u8>) -> Header
    recommends
        b.len() == HEADER_SIZE,
{
    Header {
        magic: b[0],
        options: b[1],
        length: word16(b[2], b[3]),
        checksum: word16(b[4], b[5]),
        padding: word16(b[6], b[7]),
    }
}

/// Structural validity: the magic byte matches and the padding is zero,
/// independent of the other fields and of any payload.
pub open spec fn spec_valid(h: Header) -> bool {
    h.magic == MAGIC && h.padding == 0
}

/// Whether the options field marks the frame as sensitive.
pub open spec fn spec_sensitive(h: Header) -> bool {
    h.options & SENSITIVE_MASK != 0
}

impl Header {
    /// Decodes the 8 fixed-position fields; never fails on an 8-byte input.
    pub fn from_bytes(bytes: &[u8; 8]) -> (h: Header)
        ensures
            h == spec_from_bytes(bytes@),
    {
        let length: u16 = (bytes[2] as u16) * 256 + (bytes[3] as u16);
        let checksum: u16 = (bytes[4] as u16) * 256 + (bytes[5] as u16);
        let padding: u16 = (bytes[6] as u16) * 256 + (bytes[7] as u16);

        Header { magic: bytes[0], options: bytes[1], length, checksum, padding }
    }

    /// True iff the header is structurally valid: magic byte 0xCC and
    /// zero padding. Length needs no check: the wire format bounds it.
    pub fn is_valid(&self) -> (r: bool)
        ensures
            r == spec_valid(*self),
    {
        self.magic == MAGIC && self.padding == 0
    }

    /// True iff options bit 6 is set, marking the frame sensitive.
    pub fn is_sensitive(&self) -> (r: bool)
        ensures
            r == spec_sensitive(*self),
    {
        (self.options & SENSITIVE_MASK) != 0
    }

    /// The payload length in bytes, directly usable as a buffer size.
    pub fn payload_length(&self) -> (r: usize)
        ensures
            r == self.length as usize,
    {
        self.length as usize
    }
}

/// Header validity law: an 8-byte buffer decodes to a structurally valid
/// header exactly when byte 0 is the magic sentinel and bytes 6 and 7 are
/// both zero, whatever the other five bytes hold.
pub proof fn lemma_header_validity(b: Seq<u8>)
    requires
        b.len() == HEADER_SIZE,
    ensures
        spec_valid(spec_from_bytes(b)) <==> (b[0] == MAGIC && b[6] == 0 && b[7] == 0),
{
    assert(word16(b[6], b[7]) == 0 <==> (b[6] == 0 && b[7] == 0));
}

} // verus!
