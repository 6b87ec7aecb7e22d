use vstd::prelude::*;

use crate::error::{Field, FlvError};

verus! {

/// Video codec identifier.
#[derive(Debug, Clone, Copy, PartialEq, Eq, Hash, Structural)]
pub enum CodecId {
    /// JPEG (currently unused).
    Jpeg,

    /// Sorenson H.263.
    H263,

    /// Screen video.
    ScreenVideo,

    /// On2 VP6.
    Vp6,

    /// On2 VP6 with alpha channel.
    Vp6WithAlpha,

    /// Screen video version 2.
    ScreenVideoV2,

    /// AVC.
    Avc,
}

impl CodecId {
    /// The wire code of this value.
    pub open spec fn spec_code(self) -> u8 {
        match self {
            CodecId::Jpeg => 1,
            CodecId::H263 => 2,
            CodecId::ScreenVideo => 3,
            CodecId::Vp6 => 4,
            CodecId::Vp6WithAlpha => 5,
            CodecId::ScreenVideoV2 => 6,
            CodecId::Avc => 7,
        }
    }

    /// The value that a wire code stands for, if any.
    pub open spec fn spec_from_code(b: u8) -> Option<Self> {
        match b {
            1 => Some(CodecId::Jpeg),
            2 => Some(CodecId::H263),
            3 => Some(CodecId::ScreenVideo),
            4 => Some(CodecId::Vp6),
            5 => Some(CodecId::Vp6WithAlpha),
            6 => Some(CodecId::ScreenVideoV2),
            7 => Some(CodecId::Avc),
            _ => None,
        }
    }

    /// Each value has a code, and that code stands for it.
    pub broadcast proof fn lemma_code_round_trip(v: Self)
        ensures
            Self::spec_from_code(#[trigger] v.spec_code()) == Some(v),
    {
    }

    /// Reads a wire code; an unknown code is an error.
    pub fn from_u8(b: u8) -> (r: Result<Self, FlvError>)
        ensures
            r == match Self::spec_from_code(b) {
                Some(v) => Ok(v),
                None => Err(FlvError::InvalidField(Field::CodecId, b as i64)),
            },
    {
        match b {
            1 => Ok(CodecId::Jpeg),
            2 => Ok(CodecId::H263),
            3 => Ok(CodecId::ScreenVideo),
            4 => Ok(CodecId::Vp6),
            5 => Ok(CodecId::Vp6WithAlpha),
            6 => Ok(CodecId::ScreenVideoV2),
            7 => Ok(CodecId::Avc),
            _ => Err(FlvError::InvalidField(Field::CodecId, b as i64)),
        }
    }

    /// The wire code of this value.
    pub fn code(self) -> (r: u8)
        ensures
            r == self.spec_code(),
    {
        match self {
            CodecId::Jpeg => 1,
            CodecId::H263 => 2,
            CodecId::ScreenVideo => 3,
            CodecId::Vp6 => 4,
            CodecId::Vp6WithAlpha => 5,
            CodecId::ScreenVideoV2 => 6,
            CodecId::Avc => 7,
        }
    }
}

/// Video frame type.
#[derive(Debug, Clone, Copy, PartialEq, Eq, Hash, Structural)]
pub enum FrameType {
    /// Key frame (for AVC, a seekable frame).
    KeyFrame,

    /// Inter frame (for AVC, a non-seekable frame).
    InterFrame,

    /// Disposable inter frame (H.263 only).
    DisposableInterFrame,

    /// Generated key frame (reserved for server use).
    GeneratedKeyFrame,

    /// Video info or command frame.
    VideoInfoOrCommandFrame,
}

impl FrameType {
    /// The wire code of this value.
    pub open spec fn spec_code(self) -> u8 {
        match self {
            FrameType::KeyFrame => 1,
            FrameType::InterFrame => 2,
            FrameType::DisposableInterFrame => 3,
            FrameType::GeneratedKeyFrame => 4,
            FrameType::VideoInfoOrCommandFrame => 5,
        }
    }

    /// The value that a wire code stands for, if any.
    pub open spec fn spec_from_code(b: u8) -> Option<Self> {
        match b {
            1 => Some(FrameType::KeyFrame),
            2 => Some(FrameType::InterFrame),
            3 => Some(FrameType::DisposableInterFrame),
            4 => Some(FrameType::GeneratedKeyFrame),
            5 => Some(FrameType::VideoInfoOrCommandFrame),
            _ => None,
        }
    }

    /// Each value has a code, and that code stands for it.
    pub broadcast proof fn lemma_code_round_trip(v: Self)
        ensures
            Self::spec_from_code(#[trigger] v.spec_code()) == Some(v),
    {
    }

    /// Reads a wire code; an unknown code is an error.
    pub fn from_u8(b: u8) -> (r: Result<Self, FlvError>)
        ensures
            r == match Self::spec_from_code(b) {
                Some(v) => Ok(v),
                None => Err(FlvError::InvalidField(Field::FrameType, b as i64)),
            },
    {
        match b {
            1 => Ok(FrameType::KeyFrame),
            2 => Ok(FrameType::InterFrame),
            3 => Ok(FrameType::DisposableInterFrame),
            4 => Ok(FrameType::GeneratedKeyFrame),
            5 => Ok(FrameType::VideoInfoOrCommandFrame),
            _ => Err(FlvError::InvalidField(Field::FrameType, b as i64)),
        }
    }

    /// The wire code of this value.
    pub fn code(self) -> (r: u8)
        ensures
            r == self.spec_code(),
    {
        match self {
            FrameType::KeyFrame => 1,
            FrameType::InterFrame => 2,
            FrameType::DisposableInterFrame => 3,
            FrameType::GeneratedKeyFrame => 4,
            FrameType::VideoInfoOrCommandFrame => 5,
        }
    }
}

/// AVC packet type.
#[derive(Debug, Clone, Copy, PartialEq, Eq, Hash, Structural)]
pub enum AvcPacketType {
    /// AVC sequence header.
    SequenceHeader,

    /// AVC NAL unit.
    NalUnit,

    /// AVC end of sequence.
    EndOfSequence,
}

impl AvcPacketType {
    /// The wire code of this value.
    pub open spec fn spec_code(self) -> u8 {
        match self {
            AvcPacketType::SequenceHeader => 0,
            AvcPacketType::NalUnit => 1,
            AvcPacketType::EndOfSequence => 2,
        }
    }

    /// The value that a wire code stands for, if any.
    pub open spec fn spec_from_code(b: u8) -> Option<Self> {
        match b {
            0 => Some(AvcPacketType::SequenceHeader),
            1 => Some(AvcPacketType::NalUnit),
            2 => Some(AvcPacketType::EndOfSequence),
            _ => None,
        }
    }

    /// Each value has a code, and that code stands for it.
    pub broadcast proof fn lemma_code_round_trip(v: Self)
        ensures
            Self::spec_from_code(#[trigger] v.spec_code()) == Some(v),
    {
    }

    /// Reads a wire code; an unknown code is an error.
    pub fn from_u8(b: u8) -> (r: Result<Self, FlvError>)
        ensures
            r == match Self::spec_from_code(b) {
                Some(v) => Ok(v),
                None => Err(FlvError::InvalidField(Field::AvcPacketType, b as i64)),
            },
    {
        match b {
            0 => Ok(AvcPacketType::SequenceHeader),
            1 => Ok(AvcPacketType::NalUnit),
            2 => Ok(AvcPacketType::EndOfSequence),
            _ => Err(FlvError::InvalidField(Field::AvcPacketType, b as i64)),
        }
    }

    /// The wire code of this value.
    pub fn code(self) -> (r: u8)
        ensures
            r == self.spec_code(),
    {
        match self {
            AvcPacketType::SequenceHeader => 0,
            AvcPacketType::NalUnit => 1,
            AvcPacketType::EndOfSequence => 2,
        }
    }
}

} // verus!
