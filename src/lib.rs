//! Incremental decoders and encoders for the FLV container format.
//!
//! Every decoder is a resumable state machine: it takes whatever bytes are
//! at hand, reports how many it consumed, and becomes idle once a complete
//! item has been read. The byte layout of each item is stated by spec
//! functions, and the decoders and encoders are proved against them.

pub mod audio;
pub mod chunks;
pub mod error;
pub mod file;
pub mod frame;
pub mod header;
pub mod stream;
pub mod tag;
pub mod tag_codec;
pub mod time;
pub mod video;
pub mod wire;

pub use audio::{AacPacketType, SoundFormat, SoundRate, SoundSize, SoundType};
pub use chunks::decode_chunks;
pub use error::{Field, FlvError};
pub use file::{FileDecoder, FileEncoder};
pub use header::Header;
pub use stream::StreamId;
pub use tag::{AudioTag, ScriptDataTag, Tag, TagKind, TagView, VideoTag};
pub use tag_codec::{TagDecoder, TagEncoder};
pub use time::{TimeOffset, Timestamp};
pub use video::{AvcPacketType, CodecId, FrameType};
