use vstd::prelude::*;

use crate::audio::{AacPacketType, SoundFormat, SoundRate, SoundSize, SoundType};
use crate::error::{Field, FlvError};
use crate::stream::StreamId;
use crate::time::{TimeOffset, Timestamp, is_i24};
use crate::video::{AvcPacketType, CodecId, FrameType};

verus! {

/// The size of the fixed header in front of every tag's payload.
pub const TAG_HEADER_SIZE: u32 = 11;

/// The largest payload that the 24-bit size field can declare.
pub const MAX_DATA_SIZE: u32 = 0xFF_FFFF;

/// The kind of a tag, as given by its type code.
#[derive(Debug, Clone, Copy, PartialEq, Eq, Hash, Structural)]
pub enum TagKind {
    /// Audio tag (code 8).
    Audio,

    /// Video tag (code 9).
    Video,

    /// Script data tag (code 18).
    ScriptData,
}

impl TagKind {
    /// The type code of this kind.
    pub open spec fn spec_code(self) -> u8 {
        match self {
            TagKind::Audio => 8,
            TagKind::Video => 9,
            TagKind::ScriptData => 18,
        }
    }

    /// The kind that a type code stands for, if any.
    pub open spec fn spec_from_code(b: u8) -> Option<Self> {
        match b {
            8 => Some(TagKind::Audio),
            9 => Some(TagKind::Video),
            18 => Some(TagKind::ScriptData),
            _ => None,
        }
    }

    /// Reads a type code; an unknown code is an error.
    pub fn from_u8(b: u8) -> (r: Result<Self, FlvError>)
        ensures
            r == match Self::spec_from_code(b) {
                Some(k) => Ok(k),
                None => Err(FlvError::InvalidField(Field::TagType, b as i64)),
            },
    {
        match b {
            8 => Ok(TagKind::Audio),
            9 => Ok(TagKind::Video),
            18 => Ok(TagKind::ScriptData),
            _ => Err(FlvError::InvalidField(Field::TagType, b as i64)),
        }
    }

    /// The type code of this kind.
    pub fn code(self) -> (r: u8)
        ensures
            r == self.spec_code(),
    {
        match self {
            TagKind::Audio => 8,
            TagKind::Video => 9,
            TagKind::ScriptData => 18,
        }
    }
}

/// An audio tag.
#[derive(Debug, Clone)]
pub struct AudioTag {
    /// Timestamp.
    pub timestamp: Timestamp,

    /// Stream identifier.
    pub stream_id: StreamId,

    /// Sound format.
    pub sound_format: SoundFormat,

    /// Sound rate.
    pub sound_rate: SoundRate,

    /// Sound size.
    pub sound_size: SoundSize,

    /// Sound type.
    pub sound_type: SoundType,

    /// AAC packet type, present exactly when `sound_format` is `SoundFormat::Aac`.
    pub aac_packet_type: Option<AacPacketType>,

    /// Audio data.
    pub data: Vec<u8>,
}

/// A video tag.
#[derive(Debug, Clone)]
pub struct VideoTag {
    /// Timestamp.
    pub timestamp: Timestamp,

    /// Stream identifier.
    pub stream_id: StreamId,

    /// Frame type.
    pub frame_type: FrameType,

    /// Codec identifier.
    pub codec_id: CodecId,

    /// AVC packet type, present exactly when the codec is AVC and the frame
    /// is not an info or command frame.
    pub avc_packet_type: Option<AvcPacketType>,

    /// Composition time offset, present exactly when `avc_packet_type` is.
    pub composition_time: Option<TimeOffset>,

    /// Video data.
    pub data: Vec<u8>,
}

/// A script data tag, whose payload is kept as it is.
#[derive(Debug, Clone)]
pub struct ScriptDataTag {
    /// Timestamp.
    pub timestamp: Timestamp,

    /// Stream identifier.
    pub stream_id: StreamId,

    /// Encoded script data.
    pub data: Vec<u8>,
}

/// An FLV tag.
#[derive(Debug, Clone)]
pub enum Tag {
    /// Audio tag.
    Audio(AudioTag),

    /// Video tag.
    Video(VideoTag),

    /// Script data tag.
    ScriptData(ScriptDataTag),
}

/// The value of an audio tag.
pub struct AudioTagView {
    /// Timestamp in milliseconds.
    pub timestamp: i32,
    /// Stream identifier.
    pub stream_id: u32,
    /// Sound format.
    pub sound_format: SoundFormat,
    /// Sound rate.
    pub sound_rate: SoundRate,
    /// Sound size.
    pub sound_size: SoundSize,
    /// Sound type.
    pub sound_type: SoundType,
    /// AAC packet type.
    pub aac_packet_type: Option<AacPacketType>,
    /// The bytes after the fixed payload fields.
    pub data: Seq<u8>,
}

/// The value of a video tag.
pub struct VideoTagView {
    /// Timestamp in milliseconds.
    pub timestamp: i32,
    /// Stream identifier.
    pub stream_id: u32,
    /// Frame type.
    pub frame_type: FrameType,
    /// Codec identifier.
    pub codec_id: CodecId,
    /// AVC packet type.
    pub avc_packet_type: Option<AvcPacketType>,
    /// Composition time offset in milliseconds.
    pub composition_time: Option<i32>,
    /// The bytes after the fixed payload fields.
    pub data: Seq<u8>,
}

/// The value of a script data tag.
pub struct ScriptDataTagView {
    /// Timestamp in milliseconds.
    pub timestamp: i32,
    /// Stream identifier.
    pub stream_id: u32,
    /// The bytes after the fixed payload fields.
    pub data: Seq<u8>,
}

/// The value of a tag.
pub enum TagView {
    /// An audio tag.
    Audio(AudioTagView),
    /// A video tag.
    Video(VideoTagView),
    /// A script data tag.
    ScriptData(ScriptDataTagView),
}

impl View for AudioTag {
    type V = AudioTagView;

    open spec fn view(&self) -> AudioTagView {
        AudioTagView {
            timestamp: self.timestamp.spec_value(),
            stream_id: self.stream_id.spec_value(),
            sound_format: self.sound_format,
            sound_rate: self.sound_rate,
            sound_size: self.sound_size,
            sound_type: self.sound_type,
            aac_packet_type: self.aac_packet_type,
            data: self.data@,
        }
    }
}

impl View for VideoTag {
    type V = VideoTagView;

    open spec fn view(&self) -> VideoTagView {
        VideoTagView {
            timestamp: self.timestamp.spec_value(),
            stream_id: self.stream_id.spec_value(),
            frame_type: self.frame_type,
            codec_id: self.codec_id,
            avc_packet_type: self.avc_packet_type,
            composition_time: match self.composition_time {
                Some(t) => Some(t.spec_value()),
                None => None,
            },
            data: self.data@,
        }
    }
}

impl View for ScriptDataTag {
    type V = ScriptDataTagView;

    open spec fn view(&self) -> ScriptDataTagView {
        ScriptDataTagView {
            timestamp: self.timestamp.spec_value(),
            stream_id: self.stream_id.spec_value(),
            data: self.data@,
        }
    }
}

impl View for Tag {
    type V = TagView;

    open spec fn view(&self) -> TagView {
        match self {
            Tag::Audio(t) => TagView::Audio(t@),
            Tag::Video(t) => TagView::Video(t@),
            Tag::ScriptData(t) => TagView::ScriptData(t@),
        }
    }
}

/// Whether a video tag carries the AVC packet type and composition time.
pub open spec fn has_avc_fields(frame_type: FrameType, codec_id: CodecId) -> bool {
    codec_id == CodecId::Avc && frame_type != FrameType::VideoInfoOrCommandFrame
}

/// The first payload byte of an audio tag: format, rate, size and type bits.
pub open spec fn audio_flags(v: AudioTagView) -> u8 {
    (v.sound_format.spec_code() as int * 16 + v.sound_rate.spec_code() as int * 4 + (if v.sound_size.spec_bit() {
        2int
    } else {
        0
    }) + (if v.sound_type.spec_bit() {
        1int
    } else {
        0
    })) as u8
}

/// The first payload byte of a video tag: frame type and codec bits.
pub open spec fn video_flags(v: VideoTagView) -> u8 {
    (v.frame_type.spec_code() as int * 16 + v.codec_id.spec_code() as int) as u8
}

impl AudioTagView {
    /// The AAC packet type is present exactly for AAC, the stream identifier
    /// fits in 24 bits, and the payload fits the 24-bit size field.
    pub open spec fn wf(self) -> bool {
        &&& self.stream_id <= 0xFF_FFFF
        &&& (self.aac_packet_type is Some <==> self.sound_format == SoundFormat::Aac)
        &&& self.payload().len() <= 0xFF_FFFF
    }

    /// The payload bytes of this tag.
    pub open spec fn payload(self) -> Seq<u8> {
        seq![audio_flags(self)] + match self.aac_packet_type {
            Some(p) => seq![p.spec_code()],
            None => Seq::empty(),
        } + self.data
    }
}

impl VideoTagView {
    /// The AVC packet type and composition time are both present exactly
    /// when `has_avc_fields` holds, the composition time fits in 24 signed
    /// bits, the stream identifier in 24 bits and the payload in the 24-bit
    /// size field.
    pub open spec fn wf(self) -> bool {
        &&& self.stream_id <= 0xFF_FFFF
        &&& (self.avc_packet_type is Some <==> has_avc_fields(self.frame_type, self.codec_id))
        &&& (self.composition_time is Some <==> has_avc_fields(self.frame_type, self.codec_id))
        &&& (self.composition_time matches Some(t) ==> is_i24(t as int))
        &&& self.payload().len() <= 0xFF_FFFF
    }

    /// The payload bytes of this tag.
    pub open spec fn payload(self) -> Seq<u8> {
        seq![video_flags(self)] + match (self.avc_packet_type, self.composition_time) {
            (Some(p), Some(t)) => seq![p.spec_code()] + crate::wire::u24_bytes(
                crate::time::twos_complement_24(t as int),
            ),
            _ => Seq::empty(),
        } + self.data
    }
}

impl ScriptDataTagView {
    /// The stream identifier fits in 24 bits and the payload in the 24-bit size field.
    pub open spec fn wf(self) -> bool {
        &&& self.stream_id <= 0xFF_FFFF
        &&& self.data.len() <= 0xFF_FFFF
    }
}

/// The 32 bits of a timestamp as an unsigned number.
pub open spec fn timestamp_bits(t: i32) -> int {
    if t >= 0 {
        t as int
    } else {
        t as int + 0x1_0000_0000
    }
}

/// The timestamp whose low 24 bits are `low` and whose high 8 bits are `high`.
pub open spec fn timestamp_from_parts(low: int, high: u8) -> i32 {
    let bits = high as int * 0x100_0000 + low;
    if bits < 0x8000_0000 {
        bits as i32
    } else {
        (bits - 0x1_0000_0000) as i32
    }
}

/// The 11 header bytes of a tag.
pub open spec fn tag_header_bytes(kind: TagKind, data_size: int, timestamp: i32, stream_id: u32) -> Seq<
    u8,
> {
    let bits = timestamp_bits(timestamp);
    seq![kind.spec_code()] + crate::wire::u24_bytes(data_size) + crate::wire::u24_bytes(
        bits % 0x100_0000,
    ) + seq![(bits / 0x100_0000) as u8] + crate::wire::u24_bytes(stream_id as int)
}

impl TagView {
    pub open spec fn kind(self) -> TagKind {
        match self {
            TagView::Audio(_) => TagKind::Audio,
            TagView::Video(_) => TagKind::Video,
            TagView::ScriptData(_) => TagKind::ScriptData,
        }
    }

    pub open spec fn timestamp(self) -> i32 {
        match self {
            TagView::Audio(t) => t.timestamp,
            TagView::Video(t) => t.timestamp,
            TagView::ScriptData(t) => t.timestamp,
        }
    }

    pub open spec fn stream_id(self) -> u32 {
        match self {
            TagView::Audio(t) => t.stream_id,
            TagView::Video(t) => t.stream_id,
            TagView::ScriptData(t) => t.stream_id,
        }
    }

    /// The tag is validly constructed: see the `wf` of each kind.
    pub open spec fn wf(self) -> bool {
        match self {
            TagView::Audio(t) => t.wf(),
            TagView::Video(t) => t.wf(),
            TagView::ScriptData(t) => t.wf(),
        }
    }

    /// The payload bytes, which follow the tag header.
    pub open spec fn payload(self) -> Seq<u8> {
        match self {
            TagView::Audio(t) => t.payload(),
            TagView::Video(t) => t.payload(),
            TagView::ScriptData(t) => t.data,
        }
    }

    /// The encoded bytes of the tag: header, then payload.
    pub open spec fn bytes(self) -> Seq<u8> {
        tag_header_bytes(self.kind(), self.payload().len() as int, self.timestamp(), self.stream_id())
            + self.payload()
    }

    /// The number of bytes that encode the tag.
    pub open spec fn size(self) -> int {
        TAG_HEADER_SIZE as int + self.payload().len()
    }

    /// The size counted field by field: the header, the flags byte, one byte
    /// for an AAC packet type, four for an AVC packet type and composition
    /// time, and the data. For a validly constructed tag it is `size`.
    pub open spec fn counted_size(self) -> int {
        match self {
            TagView::Audio(t) => TAG_HEADER_SIZE as int + 1 + (if t.aac_packet_type is Some {
                1int
            } else {
                0
            }) + t.data.len(),
            TagView::Video(t) => TAG_HEADER_SIZE as int + 1 + (if t.avc_packet_type is Some {
                4int
            } else {
                0
            }) + t.data.len(),
            TagView::ScriptData(t) => TAG_HEADER_SIZE as int + t.data.len(),
        }
    }
}

impl AudioTag {
    /// The number of bytes required to encode this tag.
    pub fn tag_size(&self) -> (r: u32)
        requires
            TagView::Audio(self@).counted_size() <= u32::MAX,
        ensures
            r as int == TagView::Audio(self@).counted_size(),
            r as int == TagView::Audio(self@).size(),
    {
        let size: u32 = TAG_HEADER_SIZE + 1 + self.data.len() as u32;
        if self.aac_packet_type.is_some() {
            size + 1
        } else {
            size
        }
    }
}

impl VideoTag {
    /// The number of bytes required to encode this tag.
    pub fn tag_size(&self) -> (r: u32)
        requires
            TagView::Video(self@).counted_size() <= u32::MAX,
        ensures
            r as int == TagView::Video(self@).counted_size(),
            (self.avc_packet_type is Some <==> self.composition_time is Some) ==> r as int
                == TagView::Video(self@).size(),
    {
        let size: u32 = TAG_HEADER_SIZE + 1 + self.data.len() as u32;
        if self.avc_packet_type.is_some() {
            size + 4
        } else {
            size
        }
    }
}

impl ScriptDataTag {
    /// The number of bytes required to encode this tag.
    pub fn tag_size(&self) -> (r: u32)
        requires
            TagView::ScriptData(self@).counted_size() <= u32::MAX,
        ensures
            r as int == TagView::ScriptData(self@).counted_size(),
            r as int == TagView::ScriptData(self@).size(),
    {
        TAG_HEADER_SIZE + self.data.len() as u32
    }
}

impl Tag {
    /// The kind of the tag.
    pub fn kind(&self) -> (r: TagKind)
        ensures
            r == self@.kind(),
    {
        match self {
            Tag::Audio(_) => TagKind::Audio,
            Tag::Video(_) => TagKind::Video,
            Tag::ScriptData(_) => TagKind::ScriptData,
        }
    }

    /// The timestamp of the tag.
    pub fn timestamp(&self) -> (r: Timestamp)
        ensures
            r.spec_value() == self@.timestamp(),
    {
        match self {
            Tag::Audio(t) => t.timestamp,
            Tag::Video(t) => t.timestamp,
            Tag::ScriptData(t) => t.timestamp,
        }
    }

    /// The stream identifier of the tag.
    pub fn stream_id(&self) -> (r: StreamId)
        ensures
            r.spec_value() == self@.stream_id(),
    {
        match self {
            Tag::Audio(t) => t.stream_id,
            Tag::Video(t) => t.stream_id,
            Tag::ScriptData(t) => t.stream_id,
        }
    }

    /// Whether the tag is validly constructed: its optional fields agree
    /// with its codes and its payload fits the 24-bit size field.
    pub fn is_valid(&self) -> (r: bool)
        ensures
            r == self@.wf(),
    {
        broadcast use TimeOffset::lemma_value_determines, StreamId::lemma_value_determines;

        match self {
            Tag::Audio(t) => {
                let is_aac = match t.sound_format {
                    SoundFormat::Aac => true,
                    _ => false,
                };
                let extra: usize = if t.aac_packet_type.is_some() {
                    2
                } else {
                    1
                };
                t.stream_id.value() <= MAX_DATA_SIZE && t.aac_packet_type.is_some() == is_aac
                    && t.data.len() <= MAX_DATA_SIZE as usize - extra
            },
            Tag::Video(t) => {
                let avc = match (t.frame_type, t.codec_id) {
                    (FrameType::VideoInfoOrCommandFrame, _) => false,
                    (_, CodecId::Avc) => true,
                    _ => false,
                };
                let time_ok = match t.composition_time {
                    Some(c) => -0x80_0000 <= c.value() && c.value() < 0x80_0000,
                    None => true,
                };
                let extra: usize = if t.avc_packet_type.is_some() {
                    5
                } else {
                    1
                };
                t.stream_id.value() <= MAX_DATA_SIZE && t.avc_packet_type.is_some() == avc
                    && t.composition_time.is_some() == avc && time_ok && t.data.len()
                    <= MAX_DATA_SIZE as usize - extra
            },
            Tag::ScriptData(t) => t.stream_id.value() <= MAX_DATA_SIZE && t.data.len()
                <= MAX_DATA_SIZE as usize,
        }
    }

    /// The number of bytes required to encode this tag.
    pub fn tag_size(&self) -> (r: u32)
        requires
            self@.counted_size() <= u32::MAX,
        ensures
            r as int == self@.counted_size(),
            self@.wf() ==> r as int == self@.size() && r as int == self@.bytes().len(),
    {
        match self {
            Tag::Audio(t) => t.tag_size(),
            Tag::Video(t) => t.tag_size(),
            Tag::ScriptData(t) => t.tag_size(),
        }
    }
}

impl From<AudioTag> for Tag {
    fn from(t: AudioTag) -> (r: Tag) {
        Tag::Audio(t)
    }
}

impl vstd::std_specs::convert::FromSpecImpl<AudioTag> for Tag {
    open spec fn obeys_from_spec() -> bool {
        true
    }

    open spec fn from_spec(t: AudioTag) -> Tag {
        Tag::Audio(t)
    }
}

impl From<VideoTag> for Tag {
    fn from(t: VideoTag) -> (r: Tag) {
        Tag::Video(t)
    }
}

impl vstd::std_specs::convert::FromSpecImpl<VideoTag> for Tag {
    open spec fn obeys_from_spec() -> bool {
        true
    }

    open spec fn from_spec(t: VideoTag) -> Tag {
        Tag::Video(t)
    }
}

impl From<ScriptDataTag> for Tag {
    fn from(t: ScriptDataTag) -> (r: Tag) {
        Tag::ScriptData(t)
    }
}

impl vstd::std_specs::convert::FromSpecImpl<ScriptDataTag> for Tag {
    open spec fn obeys_from_spec() -> bool {
        true
    }

    open spec fn from_spec(t: ScriptDataTag) -> Tag {
        Tag::ScriptData(t)
    }
}

} // verus!
