use std::time::Duration;

use flv_codec::{Field, FlvError, StreamId, TimeOffset, Timestamp};

#[test]
fn timestamp_works() {
    // signed
    let t = Timestamp::new(123);
    assert_eq!(t.value(), 123);
    assert_eq!(t.to_duration(), Some(Duration::from_millis(123)));
    assert_eq!(
        Some(t),
        Timestamp::from_duration(Duration::from_millis(123)).ok()
    );

    // unsigned
    let t = Timestamp::new(-123);
    assert_eq!(t.value(), -123);
    assert_eq!(t.to_duration(), None);

    // too large
    assert_eq!(
        None,
        Timestamp::from_duration(Duration::from_secs(0xFFFF_FFFF)).ok()
    );
}

#[test]
fn time_offset_works() {
    assert_eq!(TimeOffset::new(123).map(|t| t.value()).ok(), Some(123));
    assert_eq!(TimeOffset::new(-12).map(|t| t.value()).ok(), Some(-12));
    assert!(TimeOffset::new(0x0080_0000).is_err());
    assert!(TimeOffset::new(0x0080_0000 - 1).is_ok());
    assert!(TimeOffset::new(-0x0080_0000).is_ok());
    assert!(TimeOffset::new(-0x0080_0000 - 1).is_err());
}

#[test]
fn timestamp_from_duration_counts_seconds_and_millis() {
    let t = Timestamp::from_duration(Duration::new(2, 345_678_000)).unwrap();
    assert_eq!(t.value(), 2345);
    let max = Timestamp::from_duration(Duration::from_millis(0x7FFF_FFFF)).unwrap();
    assert_eq!(max.value(), i32::MAX);
    assert_eq!(
        Timestamp::from_duration(Duration::from_millis(0x8000_0000)),
        Err(FlvError::InvalidField(Field::Timestamp, 0x8000_0000))
    );
    assert_eq!(
        Timestamp::from_duration(Duration::from_secs(u64::MAX)),
        Err(FlvError::InvalidField(Field::Timestamp, i64::MAX))
    );
    assert_eq!(Timestamp::new(0).to_duration(), Some(Duration::from_millis(0)));
    assert_eq!(
        Timestamp::new(i32::MAX).to_duration(),
        Some(Duration::from_millis(0x7FFF_FFFF))
    );
}

#[test]
fn stream_id_bounds() {
    assert_eq!(StreamId::new(0xFF_FFFF).map(|s| s.value()), Ok(0xFF_FFFF));
    assert_eq!(
        StreamId::new(0x100_0000),
        Err(FlvError::InvalidField(Field::StreamId, 0x100_0000))
    );
    assert_eq!(StreamId::default().value(), 0);
    assert_eq!(StreamId::zero(), StreamId::default());
}

#[test]
fn time_offset_bounds() {
    assert_eq!(TimeOffset::new(0x7F_FFFF).map(|t| t.value()), Ok(0x7F_FFFF));
    assert_eq!(
        TimeOffset::new(0x80_0000),
        Err(FlvError::InvalidField(Field::TimeOffset, 0x80_0000))
    );
    assert_eq!(TimeOffset::new(-0x80_0000).map(|t| t.value()), Ok(-0x80_0000));
    assert_eq!(
        TimeOffset::new(-0x80_0001),
        Err(FlvError::InvalidField(Field::TimeOffset, -0x80_0001))
    );
}

#[test]
fn time_offset_sign_extends_24_bits() {
    assert_eq!(TimeOffset::from_u24(0x00_0005).value(), 5);
    assert_eq!(TimeOffset::from_u24(0x7F_FFFF).value(), 0x7F_FFFF);
    assert_eq!(TimeOffset::from_u24(0x80_0000).value(), -0x80_0000);
    assert_eq!(TimeOffset::from_u24(0xFF_FFFF).value(), -1);
    assert_eq!(TimeOffset::from_u24(0xAB_FF_FFFE).value(), -2);
    assert_eq!(TimeOffset::new(-2).unwrap().to_u24(), 0xFF_FFFE);
    assert_eq!(TimeOffset::new(300).unwrap().to_u24(), 300);
}

#[test]
fn duration_round_trip() {
    for ms in [0, 1, 999, 1000, 123_456, i32::MAX] {
        let t = Timestamp::new(ms);
        let d = t.to_duration().unwrap();
        assert_eq!(d.as_secs(), ms as u64 / 1000);
        assert_eq!(d.subsec_millis(), ms as u32 % 1000);
        assert_eq!(Timestamp::from_duration(d), Ok(t));
    }
}
