use vstd::prelude::*;

use crate::error::{Field, FlvError};

verus! {

/// Relies on `Duration::from_millis`: the duration depends on the count alone.
pub uninterp spec fn duration_of_millis(ms: u64) -> std::time::Duration;

/// Relies on `Duration::as_secs`: the whole seconds of a duration.
pub uninterp spec fn secs_of(d: std::time::Duration) -> u64;

/// Relies on `Duration::subsec_millis`: the milliseconds past the whole seconds.
pub uninterp spec fn subsec_millis_of(d: std::time::Duration) -> u32;

/// Relies on `Duration::from_millis` to build a duration of `ms` milliseconds:
/// `ms / 1000` whole seconds and `ms % 1000` milliseconds past them.
#[verifier::external_body]
fn duration_from_millis(ms: u64) -> (r: std::time::Duration)
    ensures
        r == duration_of_millis(ms),
        secs_of(r) == ms / 1000,
        subsec_millis_of(r) == (ms % 1000) as u32,
{
    std::time::Duration::from_millis(ms)
}

/// Relies on `Duration::as_secs`.
#[verifier::external_body]
fn duration_secs(d: &std::time::Duration) -> (r: u64)
    ensures
        r == secs_of(*d),
{
    d.as_secs()
}

/// Relies on `Duration::subsec_millis`, which is documented to stay under 1000.
#[verifier::external_body]
fn duration_subsec_millis(d: &std::time::Duration) -> (r: u32)
    ensures
        r == subsec_millis_of(*d),
        r < 1000,
{
    d.subsec_millis()
}

/// A signed 32-bit timestamp in milliseconds.
#[derive(Debug, Clone, Copy, PartialEq, Eq, Hash, PartialOrd, Ord, Structural)]
pub struct Timestamp(pub(crate) i32);

impl Timestamp {
    pub closed spec fn spec_value(self) -> i32 {
        self.0
    }

    /// A timestamp is determined by its value.
    pub broadcast proof fn lemma_value_determines(a: Self, b: Self)
        ensures
            #[trigger] a.spec_value() == #[trigger] b.spec_value() ==> a == b,
    {
    }

    /// Makes a timestamp of `milliseconds`.
    pub fn new(milliseconds: i32) -> (r: Self)
        ensures
            r.spec_value() == milliseconds,
    {
        Timestamp(milliseconds)
    }

    /// The value of this timestamp in milliseconds.
    pub fn value(self) -> (r: i32)
        ensures
            r == self.spec_value(),
    {
        self.0
    }

    /// Converts to a `Duration`; a negative timestamp has none. The duration
    /// holds the milliseconds as whole seconds and the milliseconds past
    /// them, so `from_duration` gives the timestamp back.
    pub fn to_duration(self) -> (r: Option<std::time::Duration>)
        ensures
            r == (if self.spec_value() >= 0 {
                Some(duration_of_millis(self.spec_value() as u64))
            } else {
                None
            }),
            r matches Some(d) ==> {
                &&& secs_of(d) == self.spec_value() / 1000
                &&& subsec_millis_of(d) == self.spec_value() % 1000
            },
    {
        if self.0 >= 0 {
            Some(duration_from_millis(self.0 as u64))
        } else {
            None
        }
    }

    /// Converts a `Duration` to a timestamp, counting whole milliseconds.
    ///
    /// Fails when the duration exceeds `i32::MAX` milliseconds; the error
    /// holds the count, saturated at `i64::MAX`.
    pub fn from_duration(duration: std::time::Duration) -> (r: Result<Self, FlvError>)
        ensures
            ({
                let ms = secs_of(duration) as int * 1000 + subsec_millis_of(duration) as int;
                match r {
                    Ok(t) => ms <= i32::MAX as int && t.spec_value() == ms,
                    Err(e) => ms > i32::MAX as int && e == FlvError::InvalidField(
                        Field::Timestamp,
                        if ms <= i64::MAX as int {
                            ms as i64
                        } else {
                            i64::MAX
                        },
                    ),
                }
            }),
    {
        let ms: u128 = duration_secs(&duration) as u128 * 1000 + duration_subsec_millis(&duration) as u128;
        if ms <= 0x7FFF_FFFF {
            Ok(Timestamp(ms as i32))
        } else if ms <= 0x7FFF_FFFF_FFFF_FFFF {
            Err(FlvError::InvalidField(Field::Timestamp, ms as i64))
        } else {
            Err(FlvError::InvalidField(Field::Timestamp, i64::MAX))
        }
    }
}

/// The range of a signed 24-bit integer.
pub open spec fn is_i24(v: int) -> bool {
    -0x80_0000 <= v && v < 0x80_0000
}

/// The signed 24-bit value whose two's-complement bits are the low 24 bits of `n`.
pub open spec fn sign_extend_24(n: u32) -> int {
    let low = n as int % 0x100_0000;
    if low < 0x80_0000 {
        low
    } else {
        low - 0x100_0000
    }
}

/// The low 24 bits of the two's-complement form of `v`.
pub open spec fn twos_complement_24(v: int) -> int {
    if v >= 0 {
        v
    } else {
        v + 0x100_0000
    }
}

/// A signed 24-bit time offset in milliseconds.
#[derive(Debug, Clone, Copy, PartialEq, Eq, Hash, PartialOrd, Ord, Structural)]
pub struct TimeOffset(pub(crate) i32);

impl TimeOffset {
    pub closed spec fn spec_value(self) -> i32 {
        self.0
    }

    /// The value lies in the signed 24-bit range.
    pub closed spec fn wf(self) -> bool {
        is_i24(self.0 as int)
    }

    /// A time offset is determined by its value, which lies in the signed 24-bit range.
    pub broadcast proof fn lemma_value_determines(a: Self, b: Self)
        ensures
            #[trigger] a.spec_value() == #[trigger] b.spec_value() ==> a == b,
            a.wf() <==> is_i24(a.spec_value() as int),
    {
    }

    /// Makes a time offset; fails when `offset` is outside the signed 24-bit range.
    pub fn new(offset: i32) -> (r: Result<Self, FlvError>)
        ensures
            match r {
                Ok(t) => is_i24(offset as int) && t.spec_value() == offset && t.wf(),
                Err(e) => !is_i24(offset as int) && e == FlvError::InvalidField(Field::TimeOffset, offset as i64),
            },
    {
        if -0x80_0000 <= offset && offset < 0x80_0000 {
            Ok(TimeOffset(offset))
        } else {
            Err(FlvError::InvalidField(Field::TimeOffset, offset as i64))
        }
    }

    /// The value of this time offset in milliseconds.
    pub fn value(self) -> (r: i32)
        ensures
            r == self.spec_value(),
    {
        self.0
    }

    /// Sign-extends the low 24 bits of `n`.
    pub fn from_u24(n: u32) -> (r: Self)
        ensures
            r.spec_value() == sign_extend_24(n),
            r.wf(),
    {
        let low: u32 = n & 0xFF_FFFF;
        assert(low == n % 0x100_0000) by (bit_vector)
            requires
                low == n & 0xFF_FFFF,
        ;
        if low < 0x80_0000 {
            TimeOffset(low as i32)
        } else {
            TimeOffset((low as i64 - 0x100_0000) as i32)
        }
    }

    /// The low 24 bits of the two's-complement form, as written on the wire.
    pub fn to_u24(self) -> (r: u32)
        requires
            self.wf(),
        ensures
            r as int == twos_complement_24(self.spec_value() as int),
            r < 0x100_0000,
    {
        if self.0 >= 0 {
            self.0 as u32
        } else {
            (self.0 as i64 + 0x100_0000) as u32
        }
    }
}

} // verus!
