use vstd::prelude::*;

use crate::error::{Field, FlvError};

verus! {

/// A stream identifier: an unsigned 24-bit value, ordinarily 0.
#[derive(Debug, Clone, Copy, PartialEq, Eq, Hash, PartialOrd, Ord, Structural)]
pub struct StreamId(u32);

impl StreamId {
    pub closed spec fn spec_value(self) -> u32 {
        self.0
    }

    /// The identifier fits in 24 bits.
    pub closed spec fn wf(self) -> bool {
        self.0 <= 0xFF_FFFF
    }

    /// A stream identifier is determined by its value, which fits in 24 bits.
    pub broadcast proof fn lemma_value_determines(a: Self, b: Self)
        ensures
            #[trigger] a.spec_value() == #[trigger] b.spec_value() ==> a == b,
            a.wf() <==> a.spec_value() <= 0xFF_FFFF,
    {
    }

    /// Makes a stream identifier; fails when `id` exceeds `0xFF_FFFF`.
    pub fn new(id: u32) -> (r: Result<Self, FlvError>)
        ensures
            match r {
                Ok(s) => id <= 0xFF_FFFF && s.spec_value() == id && s.wf(),
                Err(e) => id > 0xFF_FFFF && e == FlvError::InvalidField(Field::StreamId, id as i64),
            },
    {
        if id <= 0xFF_FFFF {
            Ok(StreamId(id))
        } else {
            Err(FlvError::InvalidField(Field::StreamId, id as i64))
        }
    }

    /// The identifier 0.
    pub fn zero() -> (r: Self)
        ensures
            r.spec_value() == 0,
            r.wf(),
    {
        StreamId(0)
    }

    /// The value of the identifier.
    pub fn value(self) -> (r: u32)
        ensures
            r == self.spec_value(),
    {
        self.0
    }
}

impl Default for StreamId {
    fn default() -> (r: Self)
        ensures
            r.spec_value() == 0,
            r.wf(),
    {
        StreamId(0)
    }
}

} // verus!
