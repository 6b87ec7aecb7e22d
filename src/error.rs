use vstd::prelude::*;

verus! {

/// The field that held an unacceptable value.
#[derive(Debug, Clone, Copy, PartialEq, Eq, Structural)]
pub enum Field {
    /// The tag type code.
    TagType,

    /// The sound format code.
    SoundFormat,

    /// The sound rate code.
    SoundRate,

    /// The AAC packet type code.
    AacPacketType,

    /// The video frame type code.
    FrameType,

    /// The video codec code.
    CodecId,

    /// The AVC packet type code.
    AvcPacketType,

    /// A stream identifier.
    StreamId,

    /// A composition time offset.
    TimeOffset,

    /// A timestamp in milliseconds.
    Timestamp,

    /// The header's offset of the first tag.
    DataOffset,

    /// The size field that precedes the first tag.
    PreviousTagSize,
}

/// Errors reported by the decoders, encoders and constructors.
#[derive(Debug, Clone, Copy, PartialEq, Eq, Structural)]
pub enum FlvError {
    /// The file does not start with the `FLV` signature.
    MalformedSignature,
    /// The file header names a version other than 1.
    UnknownVersion(u8),
    /// A field holds a code or a value outside its range.
    InvalidField(Field, i64),
    /// A declared size disagrees with the size of what was read.
    SizeMismatch(crate::tag::TagKind),
    /// The stream ended while an item was still incomplete.
    PrematureEof,
    /// A decoder was asked for an item that it has not read, or an encoder
    /// was given an item before it had written the last one.
    InconsistentState,
    /// A tag's optional fields disagree with its codes, or its payload does
    /// not fit the 24-bit size field.
    InvalidTag(crate::tag::TagKind),
}

} // verus!
