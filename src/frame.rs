//! One tag as bytes: the layout of its header and payload, the function that
//! reads a complete frame and the one that writes it.
use vstd::prelude::*;

use crate::audio::{AacPacketType, SoundFormat, SoundRate, SoundSize, SoundType};
use crate::error::{Field, FlvError};
use crate::stream::StreamId;
use crate::tag::{
    AudioTag, AudioTagView, ScriptDataTag, ScriptDataTagView, Tag, TagKind, TagView, VideoTag,
    VideoTagView, has_avc_fields, timestamp_from_parts,
};
use crate::time::{TimeOffset, Timestamp, sign_extend_24};
use crate::video::{AvcPacketType, CodecId, FrameType};
use crate::tag::{audio_flags, tag_header_bytes, timestamp_bits, video_flags};
use crate::time::twos_complement_24;
use crate::wire::{be24, lemma_be24_bytes, lemma_u24_round_trip, push_u24, read_u24, u24_bytes};

verus! {

/// `s` holds a tag header and exactly as many payload bytes as it declares.
pub open spec fn frame_complete(s: Seq<u8>) -> bool {
    s.len() >= 11 && s.len() == 11 + be24(s, 1)
}

/// A payload of `size` bytes that starts with `first_byte` is shorter than
/// the fixed fields of a tag of type `code` need: audio needs one byte, and
/// two for AAC (format 10); video needs one byte, and five for AVC (codec 7)
/// in a key, inter, disposable or generated frame (types 1 to 4). An unknown
/// frame type is reported as such, once the frame is read.
pub open spec fn payload_short(code: u8, size: int, first_byte: u8) -> bool {
    if code == 8 {
        size < 1 || (first_byte / 16 == 10 && size < 2)
    } else if code == 9 {
        size < 1 || (first_byte % 16 == 7 && 1 <= first_byte / 16 && first_byte / 16 <= 4
            && size < 5)
    } else {
        false
    }
}

/// The kind reported when a payload of a tag of type `code` is too short.
pub open spec fn short_kind(code: u8) -> TagKind {
    if code == 8 {
        TagKind::Audio
    } else {
        TagKind::Video
    }
}

/// Whether a payload is too short for its fixed fields; see `payload_short`.
pub fn is_payload_short(code: u8, size: u32, first_byte: u8) -> (r: bool)
    ensures
        r == payload_short(code, size as int, first_byte),
{
    if code == 8 {
        size < 1 || (first_byte / 16 == 10 && size < 2)
    } else if code == 9 {
        size < 1 || (first_byte % 16 == 7 && 1 <= first_byte / 16 && first_byte / 16 <= 4
            && size < 5)
    } else {
        false
    }
}

/// The error for a too short payload of a tag of type `code`.
pub fn short_error(code: u8) -> (r: FlvError)
    ensures
        r == FlvError::SizeMismatch(short_kind(code)),
{
    if code == 8 {
        FlvError::SizeMismatch(TagKind::Audio)
    } else {
        FlvError::SizeMismatch(TagKind::Video)
    }
}

/// The audio tag read from payload `p`.
pub open spec fn parse_audio(timestamp: i32, stream_id: u32, p: Seq<u8>) -> Result<TagView, FlvError> {
    if p.len() == 0 {
        Err(FlvError::SizeMismatch(TagKind::Audio))
    } else {
        let b = p[0];
        match SoundFormat::spec_from_code(b / 16) {
            None => Err(FlvError::InvalidField(Field::SoundFormat, (b / 16) as i64)),
            Some(sound_format) => match SoundRate::spec_from_code(b / 4 % 4) {
                None => Err(FlvError::InvalidField(Field::SoundRate, (b / 4 % 4) as i64)),
                Some(sound_rate) => {
                    let sound_size = if b / 2 % 2 == 1 {
                        SoundSize::Bit16
                    } else {
                        SoundSize::Bit8
                    };
                    let sound_type = if b % 2 == 1 {
                        SoundType::Stereo
                    } else {
                        SoundType::Mono
                    };
                    if sound_format == SoundFormat::Aac {
                        if p.len() < 2 {
                            Err(FlvError::SizeMismatch(TagKind::Audio))
                        } else {
                            match AacPacketType::spec_from_code(p[1]) {
                                None => Err(FlvError::InvalidField(Field::AacPacketType, p[1] as i64)),
                                Some(a) => Ok(
                                    TagView::Audio(
                                        AudioTagView {
                                            timestamp,
                                            stream_id,
                                            sound_format,
                                            sound_rate,
                                            sound_size,
                                            sound_type,
                                            aac_packet_type: Some(a),
                                            data: p.subrange(2, p.len() as int),
                                        },
                                    ),
                                ),
                            }
                        }
                    } else {
                        Ok(
                            TagView::Audio(
                                AudioTagView {
                                    timestamp,
                                    stream_id,
                                    sound_format,
                                    sound_rate,
                                    sound_size,
                                    sound_type,
                                    aac_packet_type: None,
                                    data: p.subrange(1, p.len() as int),
                                },
                            ),
                        )
                    }
                },
            },
        }
    }
}

/// The video tag read from payload `p`.
pub open spec fn parse_video(timestamp: i32, stream_id: u32, p: Seq<u8>) -> Result<TagView, FlvError> {
    if p.len() == 0 {
        Err(FlvError::SizeMismatch(TagKind::Video))
    } else {
        let b = p[0];
        match FrameType::spec_from_code(b / 16) {
            None => Err(FlvError::InvalidField(Field::FrameType, (b / 16) as i64)),
            Some(frame_type) => match CodecId::spec_from_code(b % 16) {
                None => Err(FlvError::InvalidField(Field::CodecId, (b % 16) as i64)),
                Some(codec_id) => {
                    if has_avc_fields(frame_type, codec_id) {
                        if p.len() < 5 {
                            Err(FlvError::SizeMismatch(TagKind::Video))
                        } else {
                            match AvcPacketType::spec_from_code(p[1]) {
                                None => Err(FlvError::InvalidField(Field::AvcPacketType, p[1] as i64)),
                                Some(a) => Ok(
                                    TagView::Video(
                                        VideoTagView {
                                            timestamp,
                                            stream_id,
                                            frame_type,
                                            codec_id,
                                            avc_packet_type: Some(a),
                                            composition_time: Some(
                                                sign_extend_24(be24(p, 2) as u32) as i32,
                                            ),
                                            data: p.subrange(5, p.len() as int),
                                        },
                                    ),
                                ),
                            }
                        }
                    } else {
                        Ok(
                            TagView::Video(
                                VideoTagView {
                                    timestamp,
                                    stream_id,
                                    frame_type,
                                    codec_id,
                                    avc_packet_type: None,
                                    composition_time: None,
                                    data: p.subrange(1, p.len() as int),
                                },
                            ),
                        )
                    }
                },
            },
        }
    }
}

/// The tag read from a frame: its 11-byte header, then its payload.
pub open spec fn parse_frame(s: Seq<u8>) -> Result<TagView, FlvError> {
    match TagKind::spec_from_code(s[0]) {
        None => Err(FlvError::InvalidField(Field::TagType, s[0] as i64)),
        Some(kind) => {
            let timestamp = timestamp_from_parts(be24(s, 4), s[7]);
            let stream_id = be24(s, 8) as u32;
            let p = s.subrange(11, s.len() as int);
            match kind {
                TagKind::Audio => parse_audio(timestamp, stream_id, p),
                TagKind::Video => parse_video(timestamp, stream_id, p),
                TagKind::ScriptData => Ok(
                    TagView::ScriptData(ScriptDataTagView { timestamp, stream_id, data: p }),
                ),
            }
        },
    }
}

/// Copies `s[start..]` into a new vector.
fn copy_tail(s: &[u8], start: usize) -> (r: Vec<u8>)
    requires
        start <= s@.len(),
    ensures
        r@ == s@.subrange(start as int, s@.len() as int),
{
    let mut r: Vec<u8> = Vec::new();
    let mut i: usize = start;
    while i < s.len()
        invariant
            start <= i <= s@.len(),
            r@ == s@.subrange(start as int, i as int),
        decreases s@.len() - i,
    {
        r.push(s[i]);
        i += 1;
        assert(r@ =~= s@.subrange(start as int, i as int));
    }
    r
}

/// Appends the bytes of `src` to `out`.
pub fn append_bytes(out: &mut Vec<u8>, src: &[u8])
    ensures
        final(out)@ == old(out)@ + src@,
{
    let mut i: usize = 0;
    while i < src.len()
        invariant
            i <= src@.len(),
            out@ == old(out)@ + src@.subrange(0, i as int),
        decreases src@.len() - i,
    {
        out.push(src[i]);
        i += 1;
        assert(out@ =~= old(out)@ + src@.subrange(0, i as int));
    }
    assert(src@.subrange(0, src@.len() as int) =~= src@);
}

/// Reads the timestamp whose low 24 bits are at `s[4..7]` and high 8 bits at `s[7]`.
fn read_timestamp(s: &[u8]) -> (r: Timestamp)
    requires
        s@.len() >= 11,
    ensures
        r.spec_value() == timestamp_from_parts(be24(s@, 4), s@[7]),
{
    let low = read_u24(s, 4);
    let bits: u32 = s[7] as u32 * 0x100_0000 + low;
    if bits < 0x8000_0000 {
        Timestamp::new(bits as i32)
    } else {
        Timestamp::new((bits as i64 - 0x1_0000_0000) as i32)
    }
}

/// Reads an audio payload.
fn decode_audio(timestamp: Timestamp, stream_id: StreamId, p: &[u8]) -> (r: Result<AudioTag, FlvError>)
    ensures
        match r {
            Ok(t) => parse_audio(timestamp.spec_value(), stream_id.spec_value(), p@) == Ok::<
                TagView,
                FlvError,
            >(TagView::Audio(t@)),
            Err(e) => parse_audio(timestamp.spec_value(), stream_id.spec_value(), p@) == Err::<
                TagView,
                FlvError,
            >(e),
        },
{
    if p.len() == 0 {
        return Err(FlvError::SizeMismatch(TagKind::Audio));
    }
    let b = p[0];
    let sound_format = SoundFormat::from_u8(b / 16)?;
    let sound_rate = SoundRate::from_u8(b / 4 % 4)?;
    let sound_size = SoundSize::from_bool(b / 2 % 2 == 1);
    let sound_type = SoundType::from_bool(b % 2 == 1);
    let (aac_packet_type, start) = if let SoundFormat::Aac = sound_format {
        if p.len() < 2 {
            return Err(FlvError::SizeMismatch(TagKind::Audio));
        }
        (Some(AacPacketType::from_u8(p[1])?), 2)
    } else {
        (None, 1)
    };
    let data = copy_tail(p, start);
    Ok(
        AudioTag {
            timestamp,
            stream_id,
            sound_format,
            sound_rate,
            sound_size,
            sound_type,
            aac_packet_type,
            data,
        },
    )
}

/// Reads a video payload.
fn decode_video(timestamp: Timestamp, stream_id: StreamId, p: &[u8]) -> (r: Result<VideoTag, FlvError>)
    ensures
        match r {
            Ok(t) => parse_video(timestamp.spec_value(), stream_id.spec_value(), p@) == Ok::<
                TagView,
                FlvError,
            >(TagView::Video(t@)),
            Err(e) => parse_video(timestamp.spec_value(), stream_id.spec_value(), p@) == Err::<
                TagView,
                FlvError,
            >(e),
        },
{
    if p.len() == 0 {
        return Err(FlvError::SizeMismatch(TagKind::Video));
    }
    let b = p[0];
    let frame_type = FrameType::from_u8(b / 16)?;
    let codec_id = CodecId::from_u8(b % 16)?;
    let is_avc = match (frame_type, codec_id) {
        (FrameType::VideoInfoOrCommandFrame, _) => false,
        (_, CodecId::Avc) => true,
        _ => false,
    };
    if is_avc {
        if p.len() < 5 {
            return Err(FlvError::SizeMismatch(TagKind::Video));
        }
        let avc_packet_type = AvcPacketType::from_u8(p[1])?;
        let composition_time = TimeOffset::from_u24(read_u24(p, 2));
        let data = copy_tail(p, 5);
        Ok(
            VideoTag {
                timestamp,
                stream_id,
                frame_type,
                codec_id,
                avc_packet_type: Some(avc_packet_type),
                composition_time: Some(composition_time),
                data,
            },
        )
    } else {
        let data = copy_tail(p, 1);
        Ok(
            VideoTag {
                timestamp,
                stream_id,
                frame_type,
                codec_id,
                avc_packet_type: None,
                composition_time: None,
                data,
            },
        )
    }
}

/// Reads the tag held by a complete frame.
pub fn decode_frame(s: &[u8]) -> (r: Result<Tag, FlvError>)
    requires
        frame_complete(s@),
    ensures
        match r {
            Ok(t) => parse_frame(s@) == Ok::<TagView, FlvError>(t@),
            Err(e) => parse_frame(s@) == Err::<TagView, FlvError>(e),
        },
{
    let kind = TagKind::from_u8(s[0])?;
    let timestamp = read_timestamp(s);
    let stream_id = StreamId::new(read_u24(s, 8))?;
    let p = vstd::slice::slice_subrange(s, 11, s.len());
    match kind {
        TagKind::Audio => Ok(Tag::Audio(decode_audio(timestamp, stream_id, p)?)),
        TagKind::Video => Ok(Tag::Video(decode_video(timestamp, stream_id, p)?)),
        TagKind::ScriptData => {
            let data = copy_tail(p, 0);
            assert(data@ =~= p@);
            Ok(Tag::ScriptData(ScriptDataTag { timestamp, stream_id, data }))
        },
    }
}

/// Appends the 11 header bytes of a tag.
fn push_tag_header(
    out: &mut Vec<u8>,
    kind: TagKind,
    data_size: u32,
    timestamp: Timestamp,
    stream_id: StreamId,
)
    requires
        data_size < 0x100_0000,
        stream_id.spec_value() < 0x100_0000,
    ensures
        final(out)@ == old(out)@ + tag_header_bytes(
            kind,
            data_size as int,
            timestamp.spec_value(),
            stream_id.spec_value(),
        ),
{
    out.push(kind.code());
    push_u24(out, data_size);
    let t = timestamp.value();
    let bits: u32 = if t >= 0 {
        t as u32
    } else {
        (t as i64 + 0x1_0000_0000) as u32
    };
    push_u24(out, bits % 0x100_0000);
    out.push((bits / 0x100_0000) as u8);
    push_u24(out, stream_id.value());
    assert(out@ =~= old(out)@ + tag_header_bytes(
        kind,
        data_size as int,
        timestamp.spec_value(),
        stream_id.spec_value(),
    ));
}

/// Writes the bytes of a validly constructed tag: header, then payload.
pub fn encode_tag(tag: &Tag) -> (r: Vec<u8>)
    requires
        tag@.wf(),
    ensures
        r@ == tag@.bytes(),
{
    broadcast use TimeOffset::lemma_value_determines, StreamId::lemma_value_determines;

    let mut out: Vec<u8> = Vec::new();
    match tag {
        Tag::Audio(t) => {
            let extra: u32 = if t.aac_packet_type.is_some() {
                2
            } else {
                1
            };
            push_tag_header(&mut out, TagKind::Audio, extra + t.data.len() as u32, t.timestamp, t.stream_id);
            let size: u8 = if t.sound_size.bit() {
                2
            } else {
                0
            };
            let ty: u8 = if t.sound_type.bit() {
                1
            } else {
                0
            };
            let f = t.sound_format.code();
            let r = t.sound_rate.code();
            assert(f < 16 && r < 4);
            out.push(f * 16 + r * 4 + size + ty);
            if let Some(p) = t.aac_packet_type {
                out.push(p.code());
            }
            append_bytes(&mut out, t.data.as_slice());
            assert(out@ =~= tag@.bytes());
        },
        Tag::Video(t) => {
            let extra: u32 = if t.avc_packet_type.is_some() {
                5
            } else {
                1
            };
            push_tag_header(&mut out, TagKind::Video, extra + t.data.len() as u32, t.timestamp, t.stream_id);
            let f = t.frame_type.code();
            let c = t.codec_id.code();
            assert(f < 16 && c < 16);
            out.push(f * 16 + c);
            if let (Some(p), Some(ct)) = (t.avc_packet_type, t.composition_time) {
                out.push(p.code());
                push_u24(&mut out, ct.to_u24());
            }
            append_bytes(&mut out, t.data.as_slice());
            assert(out@ =~= tag@.bytes());
        },
        Tag::ScriptData(t) => {
            push_tag_header(&mut out, TagKind::ScriptData, t.data.len() as u32, t.timestamp, t.stream_id);
            append_bytes(&mut out, t.data.as_slice());
        },
    }
    out
}

/// The bit fields of an audio flags byte read back as they were written.
proof fn lemma_audio_flags(f: u8, r: u8, z: u8, t: u8)
    requires
        f < 16,
        r < 4,
        z < 2,
        t < 2,
    ensures
        ({
            let b = (f * 16 + r * 4 + z * 2 + t) as u8;
            &&& b / 16 == f
            &&& b / 4 % 4 == r
            &&& b / 2 % 2 == z
            &&& b % 2 == t
        }),
{
    assert({
        let b = (f * 16 + r * 4 + z * 2 + t) as u8;
        &&& b / 16 == f
        &&& b / 4 % 4 == r
        &&& b / 2 % 2 == z
        &&& b % 2 == t
    }) by (bit_vector)
        requires
            f < 16,
            r < 4,
            z < 2,
            t < 2,
    ;
}

/// A byte is the sum of its bit fields.
proof fn lemma_byte_fields(b: u8)
    ensures
        b == b / 16 * 16 + b / 4 % 4 * 4 + b / 2 % 2 * 2 + b % 2,
        b == b / 16 * 16 + b % 16,
{
    assert(b == b / 16 * 16 + b / 4 % 4 * 4 + b / 2 % 2 * 2 + b % 2) by (bit_vector);
    assert(b == b / 16 * 16 + b % 16) by (bit_vector);
}

/// The two halves of a video flags byte read back as they were written.
proof fn lemma_video_flags(f: u8, c: u8)
    requires
        f < 16,
        c < 16,
    ensures
        (f * 16 + c) as u8 / 16 == f,
        (f * 16 + c) as u8 % 16 == c,
{
    assert((f * 16 + c) as u8 / 16 == f && (f * 16 + c) as u8 % 16 == c) by (bit_vector)
        requires
            f < 16,
            c < 16,
    ;
}

/// Splitting a timestamp into its wire parts and joining them gives it back.
proof fn lemma_timestamp_parts(t: i32)
    ensures
        0 <= timestamp_bits(t) < 0x1_0000_0000,
        timestamp_from_parts(
            timestamp_bits(t) % 0x100_0000,
            (timestamp_bits(t) / 0x100_0000) as u8,
        ) == t,
{
}

/// Joining wire parts into a timestamp and splitting it gives them back.
proof fn lemma_timestamp_from_parts(low: int, high: u8)
    requires
        0 <= low < 0x100_0000,
    ensures
        timestamp_bits(timestamp_from_parts(low, high)) % 0x100_0000 == low,
        timestamp_bits(timestamp_from_parts(low, high)) / 0x100_0000 == high,
{
}

/// A signed 24-bit value survives its two's-complement form.
proof fn lemma_i24_round_trip(t: int)
    requires
        crate::time::is_i24(t),
    ensures
        0 <= twos_complement_24(t) < 0x100_0000,
        sign_extend_24(twos_complement_24(t) as u32) == t,
{
}

/// A 24-bit field survives sign extension.
proof fn lemma_u24_sign_round_trip(n: int)
    requires
        0 <= n < 0x100_0000,
    ensures
        crate::time::is_i24(sign_extend_24(n as u32)),
        twos_complement_24(sign_extend_24(n as u32)) == n,
{
}

/// Decoding a validly constructed tag's bytes gives back the same tag, field
/// for field, and those bytes form exactly one complete frame.
#[verifier::rlimit(30)]
pub proof fn lemma_decode_encoded(v: TagView)
    requires
        v.wf(),
    ensures
        frame_complete(v.bytes()),
        v.bytes().len() == v.size(),
        parse_frame(v.bytes()) == Ok::<TagView, FlvError>(v),
{
    let s = v.bytes();
    let p = v.payload();
    let bits = timestamp_bits(v.timestamp());
    lemma_timestamp_parts(v.timestamp());
    lemma_u24_round_trip(p.len() as int);
    lemma_u24_round_trip(bits % 0x100_0000);
    lemma_u24_round_trip(v.stream_id() as int);
    let h = tag_header_bytes(v.kind(), p.len() as int, v.timestamp(), v.stream_id());
    assert(h.len() == 11);
    assert(s.subrange(1, 4) =~= u24_bytes(p.len() as int));
    assert(s.subrange(4, 7) =~= u24_bytes(bits % 0x100_0000));
    assert(s.subrange(8, 11) =~= u24_bytes(v.stream_id() as int));
    assert(be24(s, 1) == be24(s.subrange(1, 4), 0));
    assert(be24(s, 4) == be24(s.subrange(4, 7), 0));
    assert(be24(s, 8) == be24(s.subrange(8, 11), 0));
    assert(s.subrange(11, s.len() as int) =~= p);
    match v {
        TagView::Audio(a) => {
            let z: u8 = if a.sound_size.spec_bit() {
                1
            } else {
                0
            };
            let t: u8 = if a.sound_type.spec_bit() {
                1
            } else {
                0
            };
            lemma_audio_flags(a.sound_format.spec_code(), a.sound_rate.spec_code(), z, t);
            SoundFormat::lemma_code_round_trip(a.sound_format);
            SoundRate::lemma_code_round_trip(a.sound_rate);
            match a.aac_packet_type {
                Some(c) => {
                    AacPacketType::lemma_code_round_trip(c);
                    assert(p.subrange(2, p.len() as int) =~= a.data);
                },
                None => {
                    assert(p.subrange(1, p.len() as int) =~= a.data);
                },
            }
        },
        TagView::Video(w) => {
            lemma_video_flags(w.frame_type.spec_code(), w.codec_id.spec_code());
            FrameType::lemma_code_round_trip(w.frame_type);
            CodecId::lemma_code_round_trip(w.codec_id);
            match (w.avc_packet_type, w.composition_time) {
                (Some(c), Some(ct)) => {
                    AvcPacketType::lemma_code_round_trip(c);
                    lemma_i24_round_trip(ct as int);
                    lemma_u24_round_trip(twos_complement_24(ct as int));
                    assert(p.subrange(2, 5) =~= u24_bytes(twos_complement_24(ct as int)));
                    assert(be24(p, 2) == be24(p.subrange(2, 5), 0));
                    assert(p.subrange(5, p.len() as int) =~= w.data);
                },
                _ => {
                    assert(p.subrange(1, p.len() as int) =~= w.data);
                },
            }
        },
        TagView::ScriptData(_) => {},
    }
}

/// A frame that decodes without error is validly constructed, and encoding
/// the decoded tag gives back the frame byte for byte.
#[verifier::rlimit(30)]
pub proof fn lemma_encode_decoded(s: Seq<u8>)
    requires
        frame_complete(s),
        parse_frame(s) is Ok,
    ensures
        parse_frame(s)->Ok_0.wf(),
        parse_frame(s)->Ok_0.bytes() == s,
        parse_frame(s)->Ok_0.size() == s.len(),
{
    let v = parse_frame(s)->Ok_0;
    let p = s.subrange(11, s.len() as int);
    lemma_be24_bytes(s, 1);
    lemma_be24_bytes(s, 4);
    lemma_be24_bytes(s, 8);
    lemma_timestamp_from_parts(be24(s, 4), s[7]);
    match v {
        TagView::Audio(a) => {
            lemma_byte_fields(p[0]);
            if a.aac_packet_type is Some {
                assert(p =~= seq![p[0]] + seq![p[1]] + p.subrange(2, p.len() as int));
            } else {
                assert(p =~= seq![p[0]] + p.subrange(1, p.len() as int));
            }
            assert(v.payload() =~= p);
        },
        TagView::Video(w) => {
            lemma_byte_fields(p[0]);
            if w.avc_packet_type is Some {
                lemma_be24_bytes(p, 2);
                lemma_u24_sign_round_trip(be24(p, 2));
                assert(p =~= seq![p[0]] + (seq![p[1]] + p.subrange(2, 5)) + p.subrange(5, p.len() as int));
            } else {
                assert(p =~= seq![p[0]] + p.subrange(1, p.len() as int));
            }
            assert(v.payload() =~= p);
        },
        TagView::ScriptData(_) => {},
    }
    assert(v.payload() =~= p);
    assert(v.bytes() =~= s);
}

/// A decoded audio tag has an AAC packet type exactly when its format is AAC.
/// A decoded video tag has an AVC packet type exactly when it has a
/// composition time, and has both exactly when its codec is AVC and its frame
/// is not an info or command frame.
pub proof fn lemma_conditional_fields(s: Seq<u8>)
    requires
        parse_frame(s) is Ok,
    ensures
        match parse_frame(s)->Ok_0 {
            TagView::Audio(a) => (a.aac_packet_type is Some <==> a.sound_format == SoundFormat::Aac),
            TagView::Video(v) => {
                &&& (v.avc_packet_type is Some <==> has_avc_fields(v.frame_type, v.codec_id))
                &&& (v.composition_time is Some <==> v.avc_packet_type is Some)
            },
            TagView::ScriptData(_) => true,
        },
{
}

} // verus!
