use flv_codec::{
    AudioTag, Field, FileDecoder, FileEncoder, FlvError, FrameType, CodecId, Header,
    ScriptDataTag, SoundFormat, SoundRate, SoundSize, SoundType, StreamId, Tag, TagKind,
    Timestamp, VideoTag,
};

const HEADER: [u8; 9] = [0x46, 0x4C, 0x56, 0x01, 0x05, 0x00, 0x00, 0x00, 0x09];

fn sample_tags() -> Vec<Tag> {
    vec![
        Tag::ScriptData(ScriptDataTag {
            timestamp: Timestamp::new(0),
            stream_id: StreamId::default(),
            data: vec![0x02, 0x00, 0x0A, 0x6F, 0x6E],
        }),
        Tag::Audio(AudioTag {
            timestamp: Timestamp::new(0),
            stream_id: StreamId::default(),
            sound_format: SoundFormat::Aac,
            sound_rate: SoundRate::Khz44,
            sound_size: SoundSize::Bit16,
            sound_type: SoundType::Stereo,
            aac_packet_type: Some(flv_codec::AacPacketType::SequenceHeader),
            data: vec![0x12, 0x10],
        }),
        Tag::Video(VideoTag {
            timestamp: Timestamp::new(25),
            stream_id: StreamId::default(),
            frame_type: FrameType::KeyFrame,
            codec_id: CodecId::Avc,
            avc_packet_type: Some(flv_codec::AvcPacketType::SequenceHeader),
            composition_time: Some(flv_codec::TimeOffset::new(0).unwrap()),
            data: vec![1, 2, 3, 4],
        }),
    ]
}

fn encode_file(header: Header, tags: Vec<Tag>) -> Vec<u8> {
    let mut encoder = FileEncoder::new(header);
    let mut out = Vec::new();
    let mut chunk = [0u8; 7];
    for tag in tags {
        encoder.start_encoding(tag).unwrap();
        while !encoder.is_idle() {
            let n = encoder.encode(&mut chunk);
            out.extend_from_slice(&chunk[..n]);
        }
    }
    out
}

/// Feeds `bytes` in chunks of `chunk` bytes, then signals the end of the stream.
fn decode_file(bytes: &[u8], chunk: usize) -> Result<(Option<Header>, Vec<Tag>), FlvError> {
    let mut decoder = FileDecoder::new();
    let mut tags = Vec::new();
    let mut rest = bytes;
    loop {
        let take = chunk.min(rest.len());
        let eos = rest.is_empty();
        let n = decoder.decode(&rest[..take], eos)?;
        rest = &rest[n..];
        if decoder.is_idle() {
            tags.push(decoder.finish_decoding()?);
        } else if eos {
            break;
        }
    }
    Ok((decoder.header().cloned(), tags))
}

fn kinds_and_times(tags: &[Tag]) -> Vec<(TagKind, i32, u32)> {
    tags.iter()
        .map(|t| (t.kind(), t.timestamp().value(), t.tag_size()))
        .collect()
}

#[test]
fn header_example_decodes_without_padding() {
    let mut decoder = FileDecoder::new();
    assert_eq!(decoder.header(), None);
    assert_eq!(decoder.decode(&HEADER, false), Ok(9));
    // the header is given out once the first size field has been read too
    assert_eq!(decoder.header(), None);
    // the first size field follows at once: no padding bytes were expected
    assert_eq!(decoder.requiring_bytes(), 15);
    assert_eq!(decoder.decode(&[0, 0, 0, 0], false), Ok(4));
    assert_eq!(
        decoder.header().cloned(),
        Some(Header { has_audio: true, has_video: true })
    );
    assert_eq!(decoder.requiring_bytes(), 11);
}

#[test]
fn file_round_trip_is_byte_exact() {
    let bytes = encode_file(Header { has_audio: true, has_video: true }, sample_tags());
    assert_eq!(&bytes[..13], &[0x46, 0x4C, 0x56, 1, 5, 0, 0, 0, 9, 0, 0, 0, 0]);
    let (header, tags) = decode_file(&bytes, 1024).unwrap();
    assert_eq!(header, Some(Header { has_audio: true, has_video: true }));
    assert_eq!(tags.len(), 3);
    let again = encode_file(header.unwrap(), tags);
    assert_eq!(again, bytes);
}

#[test]
fn chunked_delivery_gives_the_same_tags() {
    let bytes = encode_file(Header { has_audio: false, has_video: true }, sample_tags());
    let (h1, whole) = decode_file(&bytes, bytes.len()).unwrap();
    assert_eq!(
        kinds_and_times(&whole),
        vec![
            (TagKind::ScriptData, 0, 16),
            (TagKind::Audio, 0, 15),
            (TagKind::Video, 25, 20)
        ]
    );
    for chunk in [1, 2, 3, 5, 13, 64] {
        let (h, tags) = decode_file(&bytes, chunk).unwrap();
        assert_eq!(h, h1);
        assert_eq!(kinds_and_times(&tags), kinds_and_times(&whole));
        assert_eq!(encode_file(h.unwrap(), tags), bytes);
    }
}

#[test]
fn aac_tag_example_in_a_file() {
    let mut bytes = HEADER.to_vec();
    bytes.extend_from_slice(&[0, 0, 0, 0]);
    bytes.extend_from_slice(&[8, 0, 0, 5, 0, 0, 0, 0, 0, 0, 0]);
    bytes.extend_from_slice(&[0xAF, 0x01, 7, 8, 9]);
    bytes.extend_from_slice(&[0, 0, 0, 16]);
    let (_, tags) = decode_file(&bytes, 3).unwrap();
    assert_eq!(tags.len(), 1);
    match &tags[0] {
        Tag::Audio(t) => {
            assert_eq!(t.sound_format, SoundFormat::Aac);
            assert_eq!(t.aac_packet_type, Some(flv_codec::AacPacketType::Raw));
            assert_eq!(t.data, vec![7, 8, 9]);
        }
        _ => panic!("not an audio tag"),
    }

    // the same bytes with a declared size of 4 fail
    bytes[13 + 3] = 4;
    assert_eq!(
        decode_file(&bytes, 3).err(),
        Some(FlvError::SizeMismatch(TagKind::Audio))
    );
}

#[test]
fn malformed_signature_fails_before_any_tag() {
    let mut decoder = FileDecoder::new();
    assert_eq!(
        decoder.decode(&[0, 0, 0, 1, 5, 0, 0, 0, 9, 0, 0, 0, 0], false),
        Err(FlvError::MalformedSignature)
    );
    assert_eq!(decoder.header(), None);
}

#[test]
fn unknown_version_fails() {
    let mut decoder = FileDecoder::new();
    assert_eq!(
        decoder.decode(&[0x46, 0x4C, 0x56, 2, 5, 0, 0, 0, 9], false),
        Err(FlvError::UnknownVersion(2))
    );
}

#[test]
fn small_data_offset_fails() {
    let mut decoder = FileDecoder::new();
    assert_eq!(
        decoder.decode(&[0x46, 0x4C, 0x56, 1, 5, 0, 0, 0, 8], false),
        Err(FlvError::InvalidField(Field::DataOffset, 8))
    );
}

#[test]
fn padding_is_skipped() {
    let mut bytes = vec![0x46, 0x4C, 0x56, 1, 0x04, 0, 0, 0, 12, 0xEE, 0xEE, 0xEE];
    bytes.extend_from_slice(&[0, 0, 0, 0]);
    bytes.extend_from_slice(&[18, 0, 0, 1, 0, 0, 7, 0, 0, 0, 0, 0x42, 0, 0, 0, 12]);
    for chunk in [1, 4, 100] {
        let (header, tags) = decode_file(&bytes, chunk).unwrap();
        assert_eq!(header, Some(Header { has_audio: true, has_video: false }));
        assert_eq!(kinds_and_times(&tags), vec![(TagKind::ScriptData, 7, 12)]);
    }
}

#[test]
fn nonzero_first_size_fails() {
    let mut bytes = HEADER.to_vec();
    bytes.extend_from_slice(&[0, 0, 0, 3]);
    assert_eq!(
        decode_file(&bytes, 100).err(),
        Some(FlvError::InvalidField(Field::PreviousTagSize, 3))
    );
}

#[test]
fn trailing_size_mismatch_fails() {
    let mut bytes = HEADER.to_vec();
    bytes.extend_from_slice(&[0, 0, 0, 0]);
    bytes.extend_from_slice(&[18, 0, 0, 1, 0, 0, 0, 0, 0, 0, 0, 0x42, 0, 0, 0, 13]);
    assert_eq!(
        decode_file(&bytes, 100).err(),
        Some(FlvError::SizeMismatch(TagKind::ScriptData))
    );
}

#[test]
fn end_of_stream_between_tags_is_normal() {
    let mut decoder = FileDecoder::new();
    assert_eq!(decoder.decode(&HEADER, false), Ok(9));
    assert_eq!(decoder.decode(&[0, 0, 0, 0], false), Ok(4));
    assert_eq!(decoder.decode(&[], true), Ok(0));
    assert!(!decoder.is_idle());
    assert_eq!(decoder.decode(&[0, 0], true), Err(FlvError::PrematureEof));
    let mut decoder = FileDecoder::new();
    let bytes = encode_file(Header { has_audio: true, has_video: true }, sample_tags());
    let n = decoder.decode(&bytes, false).unwrap();
    assert!(decoder.is_idle());
    decoder.finish_decoding().unwrap();
    let rest = &bytes[n..];
    let n2 = decoder.decode(rest, false).unwrap();
    decoder.finish_decoding().unwrap();
    let n3 = decoder.decode(&rest[n2..], false).unwrap();
    decoder.finish_decoding().unwrap();
    assert_eq!(n + n2 + n3, bytes.len());
    assert_eq!(decoder.decode(&[], true), Ok(0));
    assert!(!decoder.is_idle());
    assert_eq!(decoder.decode(&[9, 0], true), Err(FlvError::PrematureEof));
}

#[test]
fn empty_file_is_premature() {
    let mut decoder = FileDecoder::new();
    assert_eq!(decoder.decode(&[], true), Err(FlvError::PrematureEof));
    assert_eq!(decoder.finish_decoding().err(), Some(FlvError::InconsistentState));
}

#[test]
fn encoder_writes_header_then_tags() {
    let mut encoder = FileEncoder::default();
    assert_eq!(encoder.requiring_bytes(), 13);
    let mut buf = [0u8; 5];
    assert_eq!(encoder.encode(&mut buf), 5);
    assert_eq!(buf, [0x46, 0x4C, 0x56, 1, 5]);
    let tag = sample_tags().remove(0);
    assert!(encoder.start_encoding(tag).is_ok());
    assert_eq!(encoder.requiring_bytes(), 8 + 16 + 4);
    let again = sample_tags().remove(0);
    assert_eq!(encoder.start_encoding(again), Err(FlvError::InconsistentState));
    let mut rest = [0u8; 40];
    assert_eq!(encoder.encode(&mut rest), 28);
    assert_eq!(&rest[..8], &[0, 0, 0, 9, 0, 0, 0, 0]);
    assert_eq!(&rest[24..28], &[0, 0, 0, 16]);
    assert!(encoder.is_idle());
}

/// A file with a script data tag, an audio tag and a video tag at 25 ms.
fn three_tag_file() -> Vec<u8> {
    encode_file(Header { has_audio: true, has_video: true }, sample_tags())
}

#[test]
fn it_works() {
    let flv = three_tag_file();
    let mut rest = &flv[..];
    let mut decoder = FileDecoder::new();

    let mut next_tag = |decoder: &mut FileDecoder| -> Tag {
        while !decoder.is_idle() {
            let n = decoder.decode(rest, rest.is_empty()).unwrap();
            rest = &rest[n..];
        }
        decoder.finish_decoding().unwrap()
    };

    let tag = next_tag(&mut decoder);
    assert_eq!(
        decoder.header().cloned(),
        Some(Header {
            has_audio: true,
            has_video: true
        })
    );
    assert_eq!(tag.timestamp(), Timestamp::new(0));
    assert_eq!(tag.stream_id(), StreamId::default());
    assert!(matches!(tag, Tag::ScriptData(_)));

    let tag = next_tag(&mut decoder);
    assert_eq!(tag.timestamp(), Timestamp::new(0));
    assert_eq!(tag.stream_id(), StreamId::default());
    assert!(matches!(tag, Tag::Audio(_)));

    let tag = next_tag(&mut decoder);
    assert_eq!(tag.timestamp(), Timestamp::new(25));
    assert_eq!(tag.stream_id(), StreamId::default());
    assert!(matches!(tag, Tag::Video(_)));
}

#[test]
fn file_encoder_works() {
    let flv = three_tag_file();
    let mut rest = &flv[..];
    let mut buf = Vec::new();
    let mut decoder = FileDecoder::default();
    let mut encoder = FileEncoder::default();
    let mut chunk = [0u8; 16];

    while !rest.is_empty() {
        while !decoder.is_idle() {
            let n = decoder.decode(rest, rest.is_empty()).unwrap();
            rest = &rest[n..];
        }
        let tag = decoder.finish_decoding().unwrap();
        encoder.start_encoding(tag).unwrap();
        while !encoder.is_idle() {
            let n = encoder.encode(&mut chunk);
            buf.extend_from_slice(&chunk[..n]);
        }
    }
    assert_eq!(buf, flv);
}

#[test]
fn decode_chunks_ignores_chunk_boundaries() {
    let bytes = three_tag_file();
    let whole = flv_codec::decode_chunks(&vec![bytes.clone()]).unwrap();
    assert_eq!(
        kinds_and_times(&whole),
        vec![
            (TagKind::ScriptData, 0, 16),
            (TagKind::Audio, 0, 15),
            (TagKind::Video, 25, 20)
        ]
    );
    let ones: Vec<Vec<u8>> = bytes.iter().map(|b| vec![*b]).collect();
    let split = flv_codec::decode_chunks(&ones).unwrap();
    assert_eq!(kinds_and_times(&split), kinds_and_times(&whole));
    let uneven = vec![bytes[..5].to_vec(), vec![], bytes[5..30].to_vec(), bytes[30..].to_vec()];
    let split = flv_codec::decode_chunks(&uneven).unwrap();
    assert_eq!(kinds_and_times(&split), kinds_and_times(&whole));
}

#[test]
fn decode_chunks_reports_errors() {
    let bytes = three_tag_file();
    let cut = vec![bytes[..bytes.len() - 1].to_vec()];
    assert_eq!(flv_codec::decode_chunks(&cut).err(), Some(FlvError::PrematureEof));
    let mut bad = bytes.clone();
    bad[1] = b'X';
    let ones: Vec<Vec<u8>> = bad.iter().map(|b| vec![*b]).collect();
    assert_eq!(flv_codec::decode_chunks(&ones).err(), Some(FlvError::MalformedSignature));
    assert_eq!(flv_codec::decode_chunks(&vec![]).err(), Some(FlvError::PrematureEof));
    let header_only = vec![bytes[..13].to_vec()];
    assert_eq!(flv_codec::decode_chunks(&header_only).map(|t| t.len()), Ok(0));
}

#[test]
fn short_payload_fails_in_file_decode() {
    let mut bytes = HEADER.to_vec();
    bytes.extend_from_slice(&[0, 0, 0, 0]);
    bytes.extend_from_slice(&[8, 0, 0, 1, 0, 0, 0, 0, 0, 0, 0, 0xAF, 0, 0, 0, 12]);
    let mut decoder = FileDecoder::new();
    assert_eq!(
        decoder.decode(&bytes, false),
        Err(FlvError::SizeMismatch(TagKind::Audio))
    );
    assert_eq!(
        flv_codec::decode_chunks(&vec![bytes.clone()]).err(),
        Some(FlvError::SizeMismatch(TagKind::Audio))
    );
}

#[test]
fn header_waits_for_padding_and_first_size() {
    let mut decoder = FileDecoder::new();
    // data offset 20: eleven padding bytes follow the fixed header
    assert_eq!(decoder.decode(&[0x46, 0x4C, 0x56, 1, 5, 0, 0, 0, 20], false), Ok(9));
    assert_eq!(decoder.header(), None);
    assert_eq!(decoder.decode(&[0xEE; 11], false), Ok(11));
    assert_eq!(decoder.header(), None);
    assert_eq!(decoder.decode(&[0, 0, 0], false), Ok(3));
    assert_eq!(decoder.header(), None);
    assert_eq!(decoder.decode(&[0], false), Ok(1));
    assert_eq!(
        decoder.header().cloned(),
        Some(Header { has_audio: true, has_video: true })
    );
}
