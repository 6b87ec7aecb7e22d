use flv_codec::{
    AacPacketType, AvcPacketType, CodecId, Field, FlvError, FrameType, SoundFormat, SoundRate,
    SoundSize, SoundType, TagKind,
};

#[test]
fn sound_format_codes() {
    assert_eq!(SoundFormat::from_u8(10), Ok(SoundFormat::Aac));
    assert_eq!(SoundFormat::from_u8(2), Ok(SoundFormat::Mp3));
    assert_eq!(SoundFormat::from_u8(15), Ok(SoundFormat::DeviceSpecificSound));
    assert_eq!(
        SoundFormat::from_u8(9),
        Err(FlvError::InvalidField(Field::SoundFormat, 9))
    );
    assert_eq!(
        SoundFormat::from_u8(12),
        Err(FlvError::InvalidField(Field::SoundFormat, 12))
    );
    assert_eq!(SoundFormat::Mp3_8khz.code(), 14);
}

#[test]
fn sound_rate_size_and_type() {
    assert_eq!(SoundRate::from_u8(3), Ok(SoundRate::Khz44));
    assert_eq!(
        SoundRate::from_u8(4),
        Err(FlvError::InvalidField(Field::SoundRate, 4))
    );
    assert_eq!(SoundSize::from_bool(true), SoundSize::Bit16);
    assert_eq!(SoundSize::from_bool(false), SoundSize::Bit8);
    assert_eq!(SoundType::from_bool(true), SoundType::Stereo);
    assert_eq!(SoundType::from_bool(false), SoundType::Mono);
    assert!(SoundType::Stereo.bit());
    assert!(!SoundSize::Bit8.bit());
}

#[test]
fn packet_type_codes() {
    assert_eq!(AacPacketType::from_u8(1), Ok(AacPacketType::Raw));
    assert_eq!(
        AacPacketType::from_u8(2),
        Err(FlvError::InvalidField(Field::AacPacketType, 2))
    );
    assert_eq!(AvcPacketType::from_u8(2), Ok(AvcPacketType::EndOfSequence));
    assert_eq!(
        AvcPacketType::from_u8(3),
        Err(FlvError::InvalidField(Field::AvcPacketType, 3))
    );
}

#[test]
fn video_codes() {
    assert_eq!(CodecId::from_u8(7), Ok(CodecId::Avc));
    assert_eq!(CodecId::from_u8(0), Err(FlvError::InvalidField(Field::CodecId, 0)));
    assert_eq!(FrameType::from_u8(5), Ok(FrameType::VideoInfoOrCommandFrame));
    assert_eq!(FrameType::from_u8(6), Err(FlvError::InvalidField(Field::FrameType, 6)));
    assert_eq!(FrameType::KeyFrame.code(), 1);
    assert_eq!(CodecId::Vp6WithAlpha.code(), 5);
}

#[test]
fn tag_kind_codes() {
    assert_eq!(TagKind::from_u8(8), Ok(TagKind::Audio));
    assert_eq!(TagKind::from_u8(9), Ok(TagKind::Video));
    assert_eq!(TagKind::from_u8(18), Ok(TagKind::ScriptData));
    assert_eq!(TagKind::from_u8(7), Err(FlvError::InvalidField(Field::TagType, 7)));
    assert_eq!(TagKind::ScriptData.code(), 18);
}
