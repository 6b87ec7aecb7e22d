use vstd::prelude::*;

use crate::error::{Field, FlvError};

verus! {

/// AAC packet type.
#[derive(Debug, Clone, Copy, PartialEq, Eq, Hash, Structural)]
pub enum AacPacketType {
    /// AAC sequence header.
    SequenceHeader,

    /// AAC raw data.
    Raw,
}

impl AacPacketType {
    /// The wire code of this value.
    pub open spec fn spec_code(self) -> u8 {
        match self {
            AacPacketType::SequenceHeader => 0,
            AacPacketType::Raw => 1,
        }
    }

    /// The value that a wire code stands for, if any.
    pub open spec fn spec_from_code(b: u8) -> Option<Self> {
        match b {
            0 => Some(AacPacketType::SequenceHeader),
            1 => Some(AacPacketType::Raw),
            _ => None,
        }
    }

    /// Each value has a code, and that code stands for it.
    pub broadcast proof fn lemma_code_round_trip(v: Self)
        ensures
            Self::spec_from_code(#[trigger] v.spec_code()) == Some(v),
    {
    }

    /// Reads a wire code; an unknown code is an error.
    pub fn from_u8(b: u8) -> (r: Result<Self, FlvError>)
        ensures
            r == match Self::spec_from_code(b) {
                Some(v) => Ok(v),
                None => Err(FlvError::InvalidField(Field::AacPacketType, b as i64)),
            },
    {
        match b {
            0 => Ok(AacPacketType::SequenceHeader),
            1 => Ok(AacPacketType::Raw),
            _ => Err(FlvError::InvalidField(Field::AacPacketType, b as i64)),
        }
    }

    /// The wire code of this value.
    pub fn code(self) -> (r: u8)
        ensures
            r == self.spec_code(),
    {
        match self {
            AacPacketType::SequenceHeader => 0,
            AacPacketType::Raw => 1,
        }
    }
}

/// Audio format (codec).
#[derive(Debug, Clone, Copy, PartialEq, Eq, Hash, Structural)]
pub enum SoundFormat {
    /// Linear PCM, platform endian.
    LinearPcmPlatformEndian,

    /// ADPCM.
    Adpcm,

    /// MP3.
    Mp3,

    /// Linear PCM, little endian.
    LinearPcmLittleEndian,

    /// Nellymoser 16 kHz mono.
    Nellymoser16khzMono,

    /// Nellymoser 8 kHz mono.
    Nellymoser8KhzMono,

    /// Nellymoser.
    Nellymoser,

    /// G.711 A-law logarithmic PCM.
    G711AlawLogarithmicPcm,

    /// G.711 mu-law logarithmic PCM.
    G711MuLawLogarithmicPcm,

    /// AAC.
    Aac,

    /// Speex.
    Speex,

    /// MP3 8 kHz.
    Mp3_8khz,

    /// Device-specific sound.
    DeviceSpecificSound,
}

impl SoundFormat {
    /// The wire code of this value.
    pub open spec fn spec_code(self) -> u8 {
        match self {
            SoundFormat::LinearPcmPlatformEndian => 0,
            SoundFormat::Adpcm => 1,
            SoundFormat::Mp3 => 2,
            SoundFormat::LinearPcmLittleEndian => 3,
            SoundFormat::Nellymoser16khzMono => 4,
            SoundFormat::Nellymoser8KhzMono => 5,
            SoundFormat::Nellymoser => 6,
            SoundFormat::G711AlawLogarithmicPcm => 7,
            SoundFormat::G711MuLawLogarithmicPcm => 8,
            SoundFormat::Aac => 10,
            SoundFormat::Speex => 11,
            SoundFormat::Mp3_8khz => 14,
            SoundFormat::DeviceSpecificSound => 15,
        }
    }

    /// The value that a wire code stands for, if any.
    pub open spec fn spec_from_code(b: u8) -> Option<Self> {
        match b {
            0 => Some(SoundFormat::LinearPcmPlatformEndian),
            1 => Some(SoundFormat::Adpcm),
            2 => Some(SoundFormat::Mp3),
            3 => Some(SoundFormat::LinearPcmLittleEndian),
            4 => Some(SoundFormat::Nellymoser16khzMono),
            5 => Some(SoundFormat::Nellymoser8KhzMono),
            6 => Some(SoundFormat::Nellymoser),
            7 => Some(SoundFormat::G711AlawLogarithmicPcm),
            8 => Some(SoundFormat::G711MuLawLogarithmicPcm),
            10 => Some(SoundFormat::Aac),
            11 => Some(SoundFormat::Speex),
            14 => Some(SoundFormat::Mp3_8khz),
            15 => Some(SoundFormat::DeviceSpecificSound),
            _ => None,
        }
    }

    /// Each value has a code, and that code stands for it.
    pub broadcast proof fn lemma_code_round_trip(v: Self)
        ensures
            Self::spec_from_code(#[trigger] v.spec_code()) == Some(v),
    {
    }

    /// Reads a wire code; an unknown code is an error.
    pub fn from_u8(b: u8) -> (r: Result<Self, FlvError>)
        ensures
            r == match Self::spec_from_code(b) {
                Some(v) => Ok(v),
                None => Err(FlvError::InvalidField(Field::SoundFormat, b as i64)),
            },
    {
        match b {
            0 => Ok(SoundFormat::LinearPcmPlatformEndian),
            1 => Ok(SoundFormat::Adpcm),
            2 => Ok(SoundFormat::Mp3),
            3 => Ok(SoundFormat::LinearPcmLittleEndian),
            4 => Ok(SoundFormat::Nellymoser16khzMono),
            5 => Ok(SoundFormat::Nellymoser8KhzMono),
            6 => Ok(SoundFormat::Nellymoser),
            7 => Ok(SoundFormat::G711AlawLogarithmicPcm),
            8 => Ok(SoundFormat::G711MuLawLogarithmicPcm),
            10 => Ok(SoundFormat::Aac),
            11 => Ok(SoundFormat::Speex),
            14 => Ok(SoundFormat::Mp3_8khz),
            15 => Ok(SoundFormat::DeviceSpecificSound),
            _ => Err(FlvError::InvalidField(Field::SoundFormat, b as i64)),
        }
    }

    /// The wire code of this value.
    pub fn code(self) -> (r: u8)
        ensures
            r == self.spec_code(),
    {
        match self {
            SoundFormat::LinearPcmPlatformEndian => 0,
            SoundFormat::Adpcm => 1,
            SoundFormat::Mp3 => 2,
            SoundFormat::LinearPcmLittleEndian => 3,
            SoundFormat::Nellymoser16khzMono => 4,
            SoundFormat::Nellymoser8KhzMono => 5,
            SoundFormat::Nellymoser => 6,
            SoundFormat::G711AlawLogarithmicPcm => 7,
            SoundFormat::G711MuLawLogarithmicPcm => 8,
            SoundFormat::Aac => 10,
            SoundFormat::Speex => 11,
            SoundFormat::Mp3_8khz => 14,
            SoundFormat::DeviceSpecificSound => 15,
        }
    }
}

/// Audio sampling rate (AAC always uses `Khz44`).
#[derive(Debug, Clone, Copy, PartialEq, Eq, Hash, PartialOrd, Ord, Structural)]
pub enum SoundRate {
    /// 5.5 kHz.
    Khz5,

    /// 11 kHz.
    Khz11,

    /// 22 kHz.
    Khz22,

    /// 44 kHz.
    Khz44,
}

impl SoundRate {
    /// The wire code of this value.
    pub open spec fn spec_code(self) -> u8 {
        match self {
            SoundRate::Khz5 => 0,
            SoundRate::Khz11 => 1,
            SoundRate::Khz22 => 2,
            SoundRate::Khz44 => 3,
        }
    }

    /// The value that a wire code stands for, if any.
    pub open spec fn spec_from_code(b: u8) -> Option<Self> {
        match b {
            0 => Some(SoundRate::Khz5),
            1 => Some(SoundRate::Khz11),
            2 => Some(SoundRate::Khz22),
            3 => Some(SoundRate::Khz44),
            _ => None,
        }
    }

    /// Each value has a code, and that code stands for it.
    pub broadcast proof fn lemma_code_round_trip(v: Self)
        ensures
            Self::spec_from_code(#[trigger] v.spec_code()) == Some(v),
    {
    }

    /// Reads a wire code; an unknown code is an error.
    pub fn from_u8(b: u8) -> (r: Result<Self, FlvError>)
        ensures
            r == match Self::spec_from_code(b) {
                Some(v) => Ok(v),
                None => Err(FlvError::InvalidField(Field::SoundRate, b as i64)),
            },
    {
        match b {
            0 => Ok(SoundRate::Khz5),
            1 => Ok(SoundRate::Khz11),
            2 => Ok(SoundRate::Khz22),
            3 => Ok(SoundRate::Khz44),
            _ => Err(FlvError::InvalidField(Field::SoundRate, b as i64)),
        }
    }

    /// The wire code of this value.
    pub fn code(self) -> (r: u8)
        ensures
            r == self.spec_code(),
    {
        match self {
            SoundRate::Khz5 => 0,
            SoundRate::Khz11 => 1,
            SoundRate::Khz22 => 2,
            SoundRate::Khz44 => 3,
        }
    }
}

/// Size of each audio sample (uncompressed formats only).
#[derive(Debug, Clone, Copy, PartialEq, Eq, Hash, PartialOrd, Ord, Structural)]
pub enum SoundSize {
    /// 8 bits.
    Bit8,

    /// 16 bits.
    Bit16,
}

impl SoundSize {
    /// Whether the wire bit of this value is set.
    pub open spec fn spec_bit(self) -> bool {
        self == SoundSize::Bit16
    }

    /// Reads the wire bit.
    pub fn from_bool(b: bool) -> (r: Self)
        ensures
            r.spec_bit() == b,
    {
        if b {
            SoundSize::Bit16
        } else {
            SoundSize::Bit8
        }
    }

    /// The wire bit of this value.
    pub fn bit(self) -> (r: bool)
        ensures
            r == self.spec_bit(),
    {
        match self {
            SoundSize::Bit8 => false,
            SoundSize::Bit16 => true,
        }
    }
}

/// Mono or stereo sound.
#[derive(Debug, Clone, Copy, PartialEq, Eq, Hash, PartialOrd, Ord, Structural)]
pub enum SoundType {
    /// Mono.
    Mono,

    /// Stereo.
    Stereo,
}

impl SoundType {
    /// Whether the wire bit of this value is set.
    pub open spec fn spec_bit(self) -> bool {
        self == SoundType::Stereo
    }

    /// Reads the wire bit.
    pub fn from_bool(b: bool) -> (r: Self)
        ensures
            r.spec_bit() == b,
    {
        if b {
            SoundType::Stereo
        } else {
            SoundType::Mono
        }
    }

    /// The wire bit of this value.
    pub fn bit(self) -> (r: bool)
        ensures
            r == self.spec_bit(),
    {
        match self {
            SoundType::Mono => false,
            SoundType::Stereo => true,
        }
    }
}

} // verus!
