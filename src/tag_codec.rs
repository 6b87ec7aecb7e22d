//! The resumable tag decoder and encoder.
use vstd::prelude::*;

use crate::error::FlvError;
use crate::frame::{
    lemma_decode_encoded, append_bytes, decode_frame, encode_tag, frame_complete, is_payload_short, parse_frame,
    payload_short, short_error, short_kind,
};
use crate::tag::{Tag, TagKind, TagView};
use crate::wire::{be24, read_u24};

verus! {

/// The length of the frame whose header `s` starts with.
pub open spec fn frame_len(s: Seq<u8>) -> int {
    11 + be24(s, 1)
}

/// The payload of the frame `s` is too short for the fixed fields its type
/// and first byte call for.
pub open spec fn frame_short(s: Seq<u8>) -> bool {
    payload_short(s[0], be24(s, 1), s[11])
}

/// `s` is a prefix of a frame whose header, once complete, has a known type,
/// and whose payload, once complete, holds its fixed fields.
pub open spec fn tag_prefix_ok(s: Seq<u8>) -> bool {
    s.len() >= 11 ==> {
        &&& TagKind::spec_from_code(s[0]) is Some
        &&& s.len() <= frame_len(s)
        &&& (s.len() == frame_len(s) ==> !frame_short(s))
    }
}

/// How many of the bytes `avail` a tag decoder that holds `have` takes:
/// all of them until the frame is complete, and none past its end.
pub open spec fn tag_take(have: Seq<u8>, avail: Seq<u8>) -> int {
    let all = have + avail;
    if all.len() < 11 {
        avail.len() as int
    } else if avail.len() <= frame_len(all) - have.len() {
        avail.len() as int
    } else {
        frame_len(all) - have.len()
    }
}

/// What a tag decoder that holds `have` reports when offered `avail`: the
/// number of bytes taken, or the error. An unknown type fails once the header
/// is in, and a payload too short for its fixed fields once the frame is.
pub open spec fn tag_step(have: Seq<u8>, avail: Seq<u8>, eos: bool) -> Result<int, FlvError> {
    let all = have + avail;
    let n = tag_take(have, avail);
    let taken = have + avail.take(n);
    if have.len() < 11 && all.len() >= 11 && TagKind::spec_from_code(all[0]) is None {
        Err(FlvError::InvalidField(crate::error::Field::TagType, all[0] as i64))
    } else if frame_complete(taken) && frame_short(taken) {
        Err(FlvError::SizeMismatch(short_kind(taken[0])))
    } else if eos && !frame_complete(taken) {
        Err(FlvError::PrematureEof)
    } else {
        Ok(n)
    }
}

/// Decodes one tag at a time from bytes that arrive in pieces of any size.
pub struct TagDecoder {
    buf: Vec<u8>,
}

impl TagDecoder {
    /// The bytes of the current tag taken so far.
    pub closed spec fn consumed(&self) -> Seq<u8> {
        self.buf@
    }

    pub closed spec fn wf(&self) -> bool {
        tag_prefix_ok(self.buf@)
    }

    /// A decoder that holds no bytes.
    pub fn new() -> (r: Self)
        ensures
            r.wf(),
            r.consumed() == Seq::<u8>::empty(),
    {
        TagDecoder { buf: Vec::new() }
    }

    /// The byte at `i` of the bytes held followed by `buf`.
    fn byte_at(&self, buf: &[u8], i: usize) -> (r: u8)
        requires
            i < self.buf@.len() + buf@.len(),
        ensures
            r == (self.buf@ + buf@)[i as int],
    {
        if i < self.buf.len() {
            self.buf[i]
        } else {
            buf[i - self.buf.len()]
        }
    }

    /// Takes bytes of the current tag from `buf`, up to the end of the tag,
    /// and returns how many it took. With `eos` set, no more bytes will come,
    /// so a tag left incomplete is an error. An unknown type fails once the
    /// header is in, and a payload too short for its fixed fields once the
    /// frame is. On an error nothing is taken.
    pub fn decode(&mut self, buf: &[u8], eos: bool) -> (r: Result<usize, FlvError>)
        requires
            old(self).wf(),
        ensures
            final(self).wf(),
            match r {
                Ok(n) => {
                    &&& tag_step(old(self).consumed(), buf@, eos) == Ok::<int, FlvError>(n as int)
                    &&& final(self).consumed() == old(self).consumed() + buf@.take(n as int)
                },
                Err(e) => {
                    &&& tag_step(old(self).consumed(), buf@, eos) == Err::<int, FlvError>(e)
                    &&& *final(self) == *old(self)
                },
            },
    {
        let have = self.buf.len();
        if have < 11 && buf.len() < 11 - have {
            if eos {
                return Err(FlvError::PrematureEof);
            }
            append_bytes(&mut self.buf, buf);
            assert(buf@.take(buf@.len() as int) =~= buf@);
            return Ok(buf.len());
        }
        let ghost all = self.buf@ + buf@;
        if have < 11 {
            TagKind::from_u8(self.byte_at(buf, 0))?;
        }
        let total: usize = 11 + self.byte_at(buf, 1) as usize * 0x1_0000 + self.byte_at(buf, 2) as usize
            * 0x100 + self.byte_at(buf, 3) as usize;
        assert(total == frame_len(all));
        let n: usize = if buf.len() <= total - have {
            buf.len()
        } else {
            total - have
        };
        let ghost taken_bytes = self.buf@ + buf@.take(n as int);
        assert(forall|i: int| 0 <= i < taken_bytes.len() ==> taken_bytes[i] == all[i]);
        if have + n == total {
            let code = self.byte_at(buf, 0);
            let first_byte = if total > 11 {
                self.byte_at(buf, 11)
            } else {
                0
            };
            if is_payload_short(code, (total - 11) as u32, first_byte) {
                return Err(short_error(code));
            }
        }
        if eos && have + n < total {
            return Err(FlvError::PrematureEof);
        }
        let taken = vstd::slice::slice_subrange(buf, 0, n);
        append_bytes(&mut self.buf, taken);
        assert(self.buf@ =~= old(self).buf@ + buf@.take(n as int));
        assert(frame_len(self.buf@) == frame_len(all));
        Ok(n)
    }

    /// Whether the current tag is complete, so that `finish_decoding` can be called.
    pub fn is_idle(&self) -> (r: bool)
        requires
            self.wf(),
        ensures
            r == frame_complete(self.consumed()),
    {
        self.buf.len() >= 11 && self.buf.len() == 11 + read_u24(self.buf.as_slice(), 1) as usize
    }

    /// How many more bytes the current tag needs: exact once its header is in,
    /// and until then the bytes that the header still lacks.
    pub fn requiring_bytes(&self) -> (r: u64)
        requires
            self.wf(),
        ensures
            r == if self.consumed().len() < 11 {
                11 - self.consumed().len()
            } else {
                frame_len(self.consumed()) - self.consumed().len()
            },
    {
        if self.buf.len() < 11 {
            (11 - self.buf.len()) as u64
        } else {
            (11 + read_u24(self.buf.as_slice(), 1) as usize - self.buf.len()) as u64
        }
    }

    /// Returns the tag read, and makes the decoder ready for the next one.
    /// Fails when the tag is not complete, leaving the decoder as it was.
    pub fn finish_decoding(&mut self) -> (r: Result<Tag, FlvError>)
        requires
            old(self).wf(),
        ensures
            final(self).wf(),
            if frame_complete(old(self).consumed()) {
                &&& final(self).consumed() == Seq::<u8>::empty()
                &&& match r {
                    Ok(t) => parse_frame(old(self).consumed()) == Ok::<TagView, FlvError>(t@),
                    Err(e) => parse_frame(old(self).consumed()) == Err::<TagView, FlvError>(e),
                }
            } else {
                &&& r == Err::<Tag, FlvError>(FlvError::InconsistentState)
                &&& *final(self) == *old(self)
            },
    {
        if !self.is_idle() {
            return Err(FlvError::InconsistentState);
        }
        let r = decode_frame(self.buf.as_slice());
        self.buf = Vec::new();
        r
    }
}

/// Encodes one tag at a time into buffers of any size.
pub struct TagEncoder {
    bytes: Vec<u8>,
    pos: usize,
}

impl TagEncoder {
    /// The bytes of the current tag not yet written.
    pub closed spec fn pending(&self) -> Seq<u8> {
        self.bytes@.subrange(self.pos as int, self.bytes@.len() as int)
    }

    pub closed spec fn wf(&self) -> bool {
        self.pos <= self.bytes@.len()
    }

    /// An encoder with nothing to write.
    pub fn new() -> (r: Self)
        ensures
            r.wf(),
            r.pending() == Seq::<u8>::empty(),
    {
        TagEncoder { bytes: Vec::new(), pos: 0 }
    }

    /// Starts writing `tag`. Fails, changing nothing, while the last tag is
    /// not all written, or when `tag` is not validly constructed.
    pub fn start_encoding(&mut self, tag: Tag) -> (r: Result<(), FlvError>)
        requires
            old(self).wf(),
        ensures
            final(self).wf(),
            match r {
                Ok(()) => {
                    &&& old(self).pending().len() == 0
                    &&& tag@.wf()
                    &&& final(self).pending() == tag@.bytes()
                },
                Err(e) => {
                    &&& *final(self) == *old(self)
                    &&& e == if old(self).pending().len() != 0 {
                        FlvError::InconsistentState
                    } else {
                        FlvError::InvalidTag(tag@.kind())
                    }
                    &&& (old(self).pending().len() != 0 || !tag@.wf())
                },
            },
    {
        if self.pos < self.bytes.len() {
            return Err(FlvError::InconsistentState);
        }
        if !tag.is_valid() {
            return Err(FlvError::InvalidTag(tag.kind()));
        }
        self.bytes = encode_tag(&tag);
        self.pos = 0;
        assert(self.pending() =~= tag@.bytes());
        Ok(())
    }

    /// Writes as many pending bytes as fit at the front of `buf`, and returns
    /// how many it wrote.
    pub fn encode(&mut self, buf: &mut [u8]) -> (r: usize)
        requires
            old(self).wf(),
        ensures
            final(self).wf(),
            r == if old(buf)@.len() < old(self).pending().len() {
                old(buf)@.len()
            } else {
                old(self).pending().len()
            },
            final(buf)@ == old(self).pending().take(r as int) + old(buf)@.skip(r as int),
            final(self).pending() == old(self).pending().skip(r as int),
    {
        let left = self.bytes.len() - self.pos;
        let n: usize = if buf.len() < left {
            buf.len()
        } else {
            left
        };
        let pos = self.pos;
        let mut i: usize = 0;
        while i < n
            invariant
                n <= buf@.len(),
                pos == self.pos,
                pos + n <= self.bytes@.len(),
                self.bytes@.len() <= usize::MAX,
                i <= n,
                buf@.len() == old(buf)@.len(),
                forall|j: int| 0 <= j < i ==> buf@[j] == self.bytes@[self.pos + j],
                forall|j: int| i <= j < buf@.len() ==> buf@[j] == old(buf)@[j],
            decreases n - i,
        {
            buf[i] = self.bytes[pos + i];
            i += 1;
        }
        let ghost before = self.pending();
        self.pos = self.pos + n;
        assert(buf@ =~= before.take(n as int) + old(buf)@.skip(n as int));
        assert(self.pending() =~= before.skip(n as int));
        n
    }

    /// Whether every byte of the current tag has been written.
    pub fn is_idle(&self) -> (r: bool)
        requires
            self.wf(),
        ensures
            r == (self.pending().len() == 0),
    {
        self.pos == self.bytes.len()
    }

    /// How many bytes of the current tag are left to write.
    pub fn requiring_bytes(&self) -> (r: u64)
        requires
            self.wf(),
        ensures
            r == self.pending().len(),
    {
        (self.bytes.len() - self.pos) as u64
    }
}

/// A complete frame that decodes without error holds its fixed fields.
pub proof fn lemma_parsed_not_short(s: Seq<u8>)
    requires
        frame_complete(s),
        parse_frame(s) is Ok,
    ensures
        !frame_short(s),
{
    let p = s.subrange(11, s.len() as int);
    assert(p.len() == be24(s, 1));
    if p.len() > 0 {
        assert(p[0] == s[11]);
    }
}

/// One byte per call: offered the bytes of a validly constructed tag one at
/// a time, a tag decoder takes each byte, holds a valid prefix before each
/// call, and holds a complete frame exactly after the last byte.
pub proof fn lemma_one_byte_steps(v: TagView, i: int)
    requires
        v.wf(),
        0 <= i < v.bytes().len(),
    ensures
        tag_prefix_ok(v.bytes().take(i)),
        tag_step(v.bytes().take(i), seq![v.bytes()[i]], false) == Ok::<int, FlvError>(1),
        frame_complete(v.bytes().take(i + 1)) <==> i + 1 == v.bytes().len(),
{
    let b = v.bytes();
    lemma_decode_encoded(v);
    lemma_parsed_not_short(b);
    let have = b.take(i);
    let all = have + seq![b[i]];
    assert(all =~= b.take(i + 1));
    assert(seq![b[i]].take(1) =~= seq![b[i]]);
    if i >= 11 {
        assert(be24(have, 1) == be24(b, 1));
    }
    if i + 1 >= 11 {
        assert(be24(all, 1) == be24(b, 1));
    }
    if i + 1 == b.len() {
        assert(all =~= b);
    }
}

} // verus!
