use flv_codec::{
    AacPacketType, AudioTag, AvcPacketType, CodecId, Field, FlvError, FrameType, ScriptDataTag,
    SoundFormat, SoundRate, SoundSize, SoundType, StreamId, Tag, TagDecoder, TagEncoder, TagKind,
    TimeOffset, Timestamp, VideoTag,
};

fn aac_tag() -> AudioTag {
    AudioTag {
        timestamp: Timestamp::new(0x1234_5678),
        stream_id: StreamId::default(),
        sound_format: SoundFormat::Aac,
        sound_rate: SoundRate::Khz44,
        sound_size: SoundSize::Bit16,
        sound_type: SoundType::Stereo,
        aac_packet_type: Some(AacPacketType::Raw),
        data: vec![1, 2, 3],
    }
}

fn avc_tag() -> VideoTag {
    VideoTag {
        timestamp: Timestamp::new(-2),
        stream_id: StreamId::new(0xAB_CDEF).unwrap(),
        frame_type: FrameType::KeyFrame,
        codec_id: CodecId::Avc,
        avc_packet_type: Some(AvcPacketType::NalUnit),
        composition_time: Some(TimeOffset::new(-3).unwrap()),
        data: vec![9, 8],
    }
}

fn encode(tag: Tag) -> Vec<u8> {
    let mut encoder = TagEncoder::new();
    encoder.start_encoding(tag).unwrap();
    let mut out = Vec::new();
    let mut chunk = [0u8; 3];
    while !encoder.is_idle() {
        let n = encoder.encode(&mut chunk);
        out.extend_from_slice(&chunk[..n]);
    }
    out
}

fn decode(bytes: &[u8], chunk: usize) -> Result<Tag, FlvError> {
    let mut decoder = TagDecoder::new();
    let mut rest = bytes;
    while !decoder.is_idle() {
        let take = chunk.min(rest.len());
        let n = decoder.decode(&rest[..take], rest.len() <= chunk)?;
        rest = &rest[n..];
    }
    assert!(rest.is_empty());
    decoder.finish_decoding()
}

#[test]
fn audio_tag_bytes_and_size() {
    let tag = Tag::from(aac_tag());
    assert_eq!(tag.tag_size(), 16);
    assert_eq!(tag.kind(), TagKind::Audio);
    let bytes = encode(tag);
    assert_eq!(
        bytes,
        vec![8, 0, 0, 5, 0x34, 0x56, 0x78, 0x12, 0, 0, 0, 0xAF, 1, 1, 2, 3]
    );
}

#[test]
fn video_tag_bytes_and_size() {
    let tag = Tag::from(avc_tag());
    assert_eq!(tag.tag_size(), 18);
    assert_eq!(tag.stream_id().value(), 0xAB_CDEF);
    let bytes = encode(tag);
    assert_eq!(
        bytes,
        vec![
            9, 0, 0, 7, 0xFF, 0xFF, 0xFE, 0xFF, 0xAB, 0xCD, 0xEF, 0x17, 1, 0xFF, 0xFF, 0xFD, 9, 8
        ]
    );
}

#[test]
fn script_data_tag_size() {
    let tag = Tag::ScriptData(ScriptDataTag {
        timestamp: Timestamp::new(25),
        stream_id: StreamId::default(),
        data: vec![0x02, 0x00, 0x0A],
    });
    assert_eq!(tag.tag_size(), 14);
    assert_eq!(tag.timestamp(), Timestamp::new(25));
    assert_eq!(
        encode(tag),
        vec![18, 0, 0, 3, 0, 0, 25, 0, 0, 0, 0, 0x02, 0x00, 0x0A]
    );
}

#[test]
fn audio_tag_round_trip_in_one_byte_chunks() {
    let bytes = encode(Tag::from(aac_tag()));
    for chunk in [1, 2, 5, 100] {
        match decode(&bytes, chunk).unwrap() {
            Tag::Audio(t) => {
                let o = aac_tag();
                assert_eq!(t.timestamp, o.timestamp);
                assert_eq!(t.stream_id, o.stream_id);
                assert_eq!(t.sound_format, o.sound_format);
                assert_eq!(t.sound_rate, o.sound_rate);
                assert_eq!(t.sound_size, o.sound_size);
                assert_eq!(t.sound_type, o.sound_type);
                assert_eq!(t.aac_packet_type, o.aac_packet_type);
                assert_eq!(t.data, o.data);
            }
            _ => panic!("not an audio tag"),
        }
    }
}

#[test]
fn video_tag_round_trip() {
    let bytes = encode(Tag::from(avc_tag()));
    match decode(&bytes, 4).unwrap() {
        Tag::Video(t) => {
            let o = avc_tag();
            assert_eq!(t.timestamp.value(), -2);
            assert_eq!(t.stream_id, o.stream_id);
            assert_eq!(t.frame_type, o.frame_type);
            assert_eq!(t.codec_id, o.codec_id);
            assert_eq!(t.avc_packet_type, o.avc_packet_type);
            assert_eq!(t.composition_time.map(|c| c.value()), Some(-3));
            assert_eq!(t.data, o.data);
        }
        _ => panic!("not a video tag"),
    }
}

#[test]
fn video_info_frame_has_no_avc_fields() {
    // frame type 5 (info/command) with codec AVC: no packet type, no composition time
    let bytes = [9, 0, 0, 3, 0, 0, 0, 0, 0, 0, 0, 0x57, 0xAA, 0xBB];
    match decode(&bytes, 100).unwrap() {
        Tag::Video(t) => {
            assert_eq!(t.frame_type, FrameType::VideoInfoOrCommandFrame);
            assert_eq!(t.codec_id, CodecId::Avc);
            assert_eq!(t.avc_packet_type, None);
            assert_eq!(t.composition_time, None);
            assert_eq!(t.data, vec![0xAA, 0xBB]);
        }
        _ => panic!("not a video tag"),
    }
}

#[test]
fn non_aac_audio_has_no_packet_type() {
    // format 2 (MP3), rate 1, 8-bit, mono
    let bytes = [8, 0, 0, 2, 0, 0, 0, 0, 0, 0, 0, 0x24, 0x77];
    match decode(&bytes, 100).unwrap() {
        Tag::Audio(t) => {
            assert_eq!(t.sound_format, SoundFormat::Mp3);
            assert_eq!(t.sound_rate, SoundRate::Khz11);
            assert_eq!(t.sound_size, SoundSize::Bit8);
            assert_eq!(t.sound_type, SoundType::Mono);
            assert_eq!(t.aac_packet_type, None);
            assert_eq!(t.data, vec![0x77]);
        }
        _ => panic!("not an audio tag"),
    }
}

#[test]
fn aac_header_example_reads_five_payload_bytes() {
    let bytes = [8, 0, 0, 5, 0, 0, 0, 0, 0, 0, 0, 0xAF, 0x00, 1, 2, 3, 0xEE];
    let mut decoder = TagDecoder::new();
    assert_eq!(decoder.decode(&bytes, false), Ok(16));
    assert!(decoder.is_idle());
    match decoder.finish_decoding().unwrap() {
        Tag::Audio(t) => {
            assert_eq!(t.sound_format, SoundFormat::Aac);
            assert_eq!(t.aac_packet_type, Some(AacPacketType::SequenceHeader));
            assert_eq!(t.data, vec![1, 2, 3]);
        }
        _ => panic!("not an audio tag"),
    }
}

#[test]
fn requiring_bytes_counts_what_is_missing() {
    let mut decoder = TagDecoder::new();
    assert_eq!(decoder.requiring_bytes(), 11);
    assert_eq!(decoder.decode(&[8, 0, 0, 5], false), Ok(4));
    assert_eq!(decoder.requiring_bytes(), 7);
    assert_eq!(decoder.decode(&[0, 0, 0, 0, 0, 0, 0], false), Ok(7));
    assert_eq!(decoder.requiring_bytes(), 5);
    assert!(!decoder.is_idle());
}

#[test]
fn unknown_tag_type_fails() {
    let mut decoder = TagDecoder::new();
    assert_eq!(
        decoder.decode(&[7, 0, 0, 1, 0, 0, 0, 0, 0, 0, 0, 0], false),
        Err(FlvError::InvalidField(Field::TagType, 7))
    );
}

#[test]
fn payload_too_short_fails() {
    // AAC needs a packet type byte, but the payload has one byte only
    assert_eq!(
        decode(&[8, 0, 0, 1, 0, 0, 0, 0, 0, 0, 0, 0xAF], 100).err(),
        Some(FlvError::SizeMismatch(TagKind::Audio))
    );
    // empty audio payload
    assert_eq!(
        decode(&[8, 0, 0, 0, 0, 0, 0, 0, 0, 0, 0], 100).err(),
        Some(FlvError::SizeMismatch(TagKind::Audio))
    );
    // AVC needs four more bytes
    assert_eq!(
        decode(&[9, 0, 0, 3, 0, 0, 0, 0, 0, 0, 0, 0x17, 1, 0], 100).err(),
        Some(FlvError::SizeMismatch(TagKind::Video))
    );
}

#[test]
fn unknown_codes_fail() {
    assert_eq!(
        decode(&[8, 0, 0, 1, 0, 0, 0, 0, 0, 0, 0, 0x90], 100).err(),
        Some(FlvError::InvalidField(Field::SoundFormat, 9))
    );
    assert_eq!(
        decode(&[8, 0, 0, 2, 0, 0, 0, 0, 0, 0, 0, 0xAF, 7], 100).err(),
        Some(FlvError::InvalidField(Field::AacPacketType, 7))
    );
    assert_eq!(
        decode(&[9, 0, 0, 1, 0, 0, 0, 0, 0, 0, 0, 0x67], 100).err(),
        Some(FlvError::InvalidField(Field::FrameType, 6))
    );
    assert_eq!(
        decode(&[9, 0, 0, 1, 0, 0, 0, 0, 0, 0, 0, 0x18], 100).err(),
        Some(FlvError::InvalidField(Field::CodecId, 8))
    );
    assert_eq!(
        decode(&[9, 0, 0, 5, 0, 0, 0, 0, 0, 0, 0, 0x17, 3, 0, 0, 0], 100).err(),
        Some(FlvError::InvalidField(Field::AvcPacketType, 3))
    );
}

#[test]
fn premature_end_of_stream_fails() {
    let mut decoder = TagDecoder::new();
    assert_eq!(decoder.decode(&[8, 0, 0], true), Err(FlvError::PrematureEof));
    assert_eq!(decoder.decode(&[8, 0, 0, 5, 0, 0, 0, 0, 0, 0, 0, 0x20], false), Ok(12));
    assert_eq!(decoder.decode(&[1], true), Err(FlvError::PrematureEof));
}

#[test]
fn finishing_an_incomplete_tag_fails() {
    let mut decoder = TagDecoder::new();
    assert_eq!(decoder.finish_decoding().err(), Some(FlvError::InconsistentState));
    assert_eq!(decoder.decode(&[18, 0, 0], false), Ok(3));
    assert_eq!(decoder.finish_decoding().err(), Some(FlvError::InconsistentState));
}

#[test]
fn encoder_refuses_inconsistent_tags() {
    let mut t = aac_tag();
    t.aac_packet_type = None;
    let mut encoder = TagEncoder::new();
    assert_eq!(
        encoder.start_encoding(Tag::Audio(t)),
        Err(FlvError::InvalidTag(TagKind::Audio))
    );
    let mut v = avc_tag();
    v.composition_time = None;
    assert!(!Tag::Video(v.clone()).is_valid());
    assert_eq!(
        encoder.start_encoding(Tag::Video(v)),
        Err(FlvError::InvalidTag(TagKind::Video))
    );
    assert!(encoder.is_idle());
    assert!(encoder.start_encoding(Tag::from(avc_tag())).is_ok());
    assert_eq!(encoder.requiring_bytes(), 18);
    assert_eq!(
        encoder.start_encoding(Tag::from(aac_tag())),
        Err(FlvError::InconsistentState)
    );
}

#[test]
fn short_payload_fails_in_decode() {
    // declared size 1, AAC format: the packet type byte lies past the bound
    let mut decoder = TagDecoder::new();
    let bytes = [8, 0, 0, 1, 0, 0, 0, 0, 0, 0, 0, 0xAF, 0x01, 0x00, 0x00, 0x00];
    assert_eq!(
        decoder.decode(&bytes, false),
        Err(FlvError::SizeMismatch(TagKind::Audio))
    );
    assert!(!decoder.is_idle());
    // the same error when the bytes come one at a time
    let mut decoder = TagDecoder::new();
    for b in &bytes[..11] {
        assert_eq!(decoder.decode(&[*b], false), Ok(1));
    }
    assert_eq!(
        decoder.decode(&bytes[11..], false),
        Err(FlvError::SizeMismatch(TagKind::Audio))
    );
    // empty video payload
    let mut decoder = TagDecoder::new();
    assert_eq!(
        decoder.decode(&[9, 0, 0, 0, 0, 0, 0, 0, 0, 0, 0], false),
        Err(FlvError::SizeMismatch(TagKind::Video))
    );
    // AVC key frame with four payload bytes
    let mut decoder = TagDecoder::new();
    assert_eq!(
        decoder.decode(&[9, 0, 0, 4, 0, 0, 0, 0, 0, 0, 0, 0x17, 1, 0, 0], false),
        Err(FlvError::SizeMismatch(TagKind::Video))
    );
    // an AVC info frame needs one byte only
    let mut decoder = TagDecoder::new();
    assert_eq!(
        decoder.decode(&[9, 0, 0, 1, 0, 0, 0, 0, 0, 0, 0, 0x57], false),
        Ok(12)
    );
    assert!(decoder.is_idle());
}

#[test]
fn one_byte_per_call_takes_each_byte() {
    let bytes = encode(Tag::from(avc_tag()));
    let mut decoder = TagDecoder::new();
    for (i, b) in bytes.iter().enumerate() {
        assert!(!decoder.is_idle());
        assert_eq!(decoder.decode(&[*b], false), Ok(1));
        assert_eq!(decoder.is_idle(), i + 1 == bytes.len());
    }
    match decoder.finish_decoding().unwrap() {
        Tag::Video(t) => assert_eq!(t.data, vec![9, 8]),
        _ => panic!("not a video tag"),
    }
}

#[test]
fn video_tag_size_counts_the_avc_fields_from_the_packet_type() {
    let mut v = avc_tag();
    assert_eq!(v.tag_size(), 18);
    v.composition_time = None;
    assert_eq!(v.tag_size(), 18);
    assert_eq!(Tag::Video(v.clone()).tag_size(), 18);
    v.avc_packet_type = None;
    assert_eq!(v.tag_size(), 14);
}
