//! The file header: signature, version, flags and the offset of the first tag.
use vstd::prelude::*;

use crate::error::{Field, FlvError};
use crate::wire::be32;

verus! {

/// The size of the fixed part of the file header.
pub const HEADER_SIZE: u32 = 9;

/// The only version of the format.
pub const VERSION: u8 = 1;

/// The file header.
#[derive(Debug, Clone, Copy, PartialEq, Eq, Structural)]
pub struct Header {
    /// Whether audio tags are present in the file.
    pub has_audio: bool,

    /// Whether video tags are present in the file.
    pub has_video: bool,
}

/// The flags byte of a header: bit 2 for audio, bit 0 for video.
pub open spec fn header_flags(h: Header) -> u8 {
    ((if h.has_audio {
        4int
    } else {
        0
    }) + (if h.has_video {
        1int
    } else {
        0
    })) as u8
}

/// The nine bytes that the encoder writes for a header: no padding follows.
pub open spec fn header_bytes(h: Header) -> Seq<u8> {
    seq![0x46u8, 0x4C, 0x56, VERSION, header_flags(h), 0, 0, 0, HEADER_SIZE as u8]
}

/// The header that the flags byte at `s[4]` describes; other bits are ignored.
pub open spec fn header_of(s: Seq<u8>) -> Header {
    Header { has_audio: s[4] / 4 % 2 == 1, has_video: s[4] % 2 == 1 }
}

/// The declared offset of the first tag's previous-size field.
pub open spec fn data_offset(s: Seq<u8>) -> int {
    be32(s, 5)
}

/// What is wrong with the nine fixed header bytes at the start of `s`, if anything.
pub open spec fn header_error(s: Seq<u8>) -> Option<FlvError> {
    if s[0] != 0x46 || s[1] != 0x4C || s[2] != 0x56 {
        Some(FlvError::MalformedSignature)
    } else if s[3] != VERSION {
        Some(FlvError::UnknownVersion(s[3]))
    } else if data_offset(s) < HEADER_SIZE {
        Some(FlvError::InvalidField(Field::DataOffset, data_offset(s) as i64))
    } else {
        None
    }
}

impl Header {
    /// Reads the flags byte.
    pub fn from_flags(flags: u8) -> (r: Self)
        ensures
            r == header_of(seq![0u8, 0, 0, 0, flags]),
    {
        Header { has_audio: flags / 4 % 2 == 1, has_video: flags % 2 == 1 }
    }

    /// The flags byte of this header.
    pub fn flags(&self) -> (r: u8)
        ensures
            r == header_flags(*self),
    {
        let a: u8 = if self.has_audio {
            4
        } else {
            0
        };
        let v: u8 = if self.has_video {
            1
        } else {
            0
        };
        a + v
    }
}

} // verus!
