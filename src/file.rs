//! The file decoder and encoder: a header, a zero size field, then each tag
//! followed by its size.
use vstd::prelude::*;

use crate::error::{Field, FlvError};
use crate::frame::{
    append_bytes, decode_frame, encode_tag, frame_complete, is_payload_short, lemma_encode_decoded,
    parse_frame, payload_short, short_error, short_kind,
};
use crate::header::{Header, data_offset, header_bytes, header_error, header_flags, header_of};
use crate::tag::{Tag, TagKind, TagView};
use crate::wire::{be24, be32, push_u32, read_u24, read_u32, u32_bytes};

verus! {

/// Where the tag frame of an item starts. The file's first item begins with
/// the header region and the first size field, which must be 0.
pub open spec fn frame_start(first: bool, s: Seq<u8>) -> int {
    if first {
        data_offset(s) + 4
    } else {
        0
    }
}

/// The first fault that the bytes `s` of an item show, in reading order:
/// the fixed header, the first size field, the tag type, and at the end of
/// the tag's frame a payload too short for its fixed fields.
pub open spec fn item_error(first: bool, s: Seq<u8>) -> Option<FlvError> {
    if first && s.len() < 9 {
        None
    } else if first && header_error(s) is Some {
        header_error(s)
    } else {
        let q = frame_start(first, s);
        if first && s.len() >= q && be32(s, q - 4) != 0 {
            Some(FlvError::InvalidField(Field::PreviousTagSize, be32(s, q - 4) as i64))
        } else if s.len() >= q + 11 && TagKind::spec_from_code(s[q]) is None {
            Some(FlvError::InvalidField(Field::TagType, s[q] as i64))
        } else if s.len() >= q + 11 + be24(s, q + 1) && payload_short(
            s[q],
            be24(s, q + 1),
            s[q + 11],
        ) {
            Some(FlvError::SizeMismatch(short_kind(s[q])))
        } else {
            None
        }
    }
}

/// The length of the item that `s` begins, once the header of its tag is in.
pub open spec fn item_len(first: bool, s: Seq<u8>) -> Option<int> {
    if first && s.len() < 9 {
        None
    } else {
        let q = frame_start(first, s);
        if s.len() < q + 11 {
            None
        } else {
            Some(q + 11 + be24(s, q + 1) + 4)
        }
    }
}

/// `s` is a whole item.
pub open spec fn item_complete(first: bool, s: Seq<u8>) -> bool {
    item_len(first, s) == Some(s.len() as int)
}

/// `s` can begin an item: it shows no fault and does not run past the item's end.
pub open spec fn item_prefix_ok(first: bool, s: Seq<u8>) -> bool {
    &&& item_error(first, s) is None
    &&& (item_len(first, s) matches Some(l) ==> s.len() <= l)
}

/// How many of the bytes `avail` a decoder that holds `have` takes: all of
/// them until the item is complete, and none past its end.
pub open spec fn item_take(first: bool, have: Seq<u8>, avail: Seq<u8>) -> int {
    match item_len(first, have + avail) {
        Some(l) => if avail.len() <= l - have.len() {
            avail.len() as int
        } else {
            l - have.len()
        },
        None => avail.len() as int,
    }
}

/// `s` holds no byte of a tag: nothing at all, or for the file's first item
/// just the header region and the first size field.
pub open spec fn no_tag_begun(first: bool, s: Seq<u8>) -> bool {
    (!first || s.len() >= 9) && s.len() == frame_start(first, s)
}

/// What a decoder that holds `have` reports when offered `avail`: the first
/// fault that the bytes show (every place checked lies within the item), or at
/// the end of the stream an incomplete item, though an item with no tag begun
/// is no fault; otherwise the number of bytes taken.
pub open spec fn item_step(first: bool, have: Seq<u8>, avail: Seq<u8>, eos: bool) -> Result<
    int,
    FlvError,
> {
    let n = item_take(first, have, avail);
    let taken = have + avail.take(n);
    match item_error(first, have + avail) {
        Some(e) => Err(e),
        None => if eos && !item_complete(first, taken) && !no_tag_begun(first, taken) {
            Err(FlvError::PrematureEof)
        } else {
            Ok(n)
        },
    }
}

/// A prefix of bytes that show no fault shows none either.
pub proof fn lemma_error_prefix(first: bool, s: Seq<u8>, m: int)
    requires
        0 <= m <= s.len(),
        item_error(first, s) is None,
    ensures
        item_error(first, s.take(m)) is None,
{
    let t = s.take(m);
    if first && t.len() >= 9 {
        assert(t.subrange(0, 9) =~= s.subrange(0, 9));
        assert(data_offset(t) == data_offset(s));
    }
}

/// The item length that a prefix shows is the whole's, and it shows one
/// once it holds the tag header.
pub proof fn lemma_len_prefix(first: bool, s: Seq<u8>, m: int)
    requires
        0 <= m <= s.len(),
        first ==> m >= 9,
    ensures
        item_len(first, s.take(m)) == if m >= frame_start(first, s) + 11 {
            item_len(first, s)
        } else {
            None
        },
        frame_start(first, s.take(m)) == frame_start(first, s),
{
    let t = s.take(m);
    if first {
        assert(data_offset(t) == data_offset(s));
    }
    let q = frame_start(first, s);
    if m >= q + 11 {
        assert(be24(t, q + 1) == be24(s, q + 1));
    }
}

/// The tag of a complete item, checked against the size field that follows it.
pub open spec fn item_tag(first: bool, s: Seq<u8>) -> Result<TagView, FlvError> {
    let q = frame_start(first, s);
    let l = s.len() as int;
    match parse_frame(s.subrange(q, l - 4)) {
        Err(e) => Err(e),
        Ok(v) => if v.size() == be32(s, l - 4) {
            Ok(v)
        } else {
            Err(FlvError::SizeMismatch(v.kind()))
        },
    }
}

/// How many more bytes an item needs: exact once its tag header is in, and
/// until then the bytes up to the end of that header.
pub open spec fn item_need(first: bool, s: Seq<u8>) -> int {
    match item_len(first, s) {
        Some(l) => l - s.len(),
        None => if first && s.len() < 9 {
            9 - s.len()
        } else {
            frame_start(first, s) + 11 - s.len()
        },
    }
}

/// Decodes a file one tag at a time from bytes that arrive in pieces of any size.
pub struct FileDecoder {
    first: bool,
    kept: Vec<u8>,
    skipped: u64,
    header: Option<Header>,
    pending: Ghost<Seq<u8>>,
}

impl FileDecoder {
    /// Whether the current item is the file's first, which begins with the header.
    pub closed spec fn first(&self) -> bool {
        self.first
    }

    /// The bytes of the current item taken so far.
    pub closed spec fn pending(&self) -> Seq<u8> {
        self.pending@
    }

    /// The file header, once read.
    pub closed spec fn header_view(&self) -> Option<Header> {
        self.header
    }

    pub closed spec fn wf(&self) -> bool {
        let p = self.pending@;
        &&& item_prefix_ok(self.first, p)
        &&& p.len() == self.kept@.len() + self.skipped
        &&& if !self.first {
            &&& self.skipped == 0
            &&& self.kept@ == p
            &&& self.header is Some
        } else if p.len() < 9 {
            &&& self.skipped == 0
            &&& self.kept@ == p
            &&& self.header is None
        } else {
            &&& self.header == (if p.len() >= data_offset(p) + 4 {
                Some(header_of(p))
            } else {
                None
            })
            &&& self.skipped <= data_offset(p) - 9
            &&& (self.skipped < data_offset(p) - 9 ==> self.kept@.len() == 9)
            &&& self.kept@ == p.take(9) + p.skip(9 + self.skipped)
        }
    }

    /// What a decoder holds can begin an item: it shows no fault and does
    /// not run past the item's end.
    pub proof fn lemma_wf(&self)
        requires
            self.wf(),
        ensures
            item_prefix_ok(self.first(), self.pending()),
    {
    }

    /// A decoder at the start of a file.
    pub fn new() -> (r: Self)
        ensures
            r.wf(),
            r.first(),
            r.pending() == Seq::<u8>::empty(),
            r.header_view() is None,
    {
        FileDecoder { first: true, kept: Vec::new(), skipped: 0, header: None, pending: Ghost(Seq::empty()) }
    }

    /// The file header, once the whole header region (fixed part and
    /// padding) and the first size field have been read.
    pub fn header(&self) -> (r: Option<&Header>)
        ensures
            match r {
                Some(h) => self.header_view() == Some(*h),
                None => self.header_view() is None,
            },
    {
        self.header.as_ref()
    }

    /// The byte at `i` of the bytes held followed by `buf`, away from the
    /// skipped padding.
    fn byte_at(&self, buf: &[u8], i: u128) -> (r: u8)
        requires
            self.wf(),
            i < self.pending@.len() + buf@.len(),
            self.first && self.pending@.len() >= 9 ==> i < 9 || i >= 9 + self.skipped,
        ensures
            r == (self.pending@ + buf@)[i as int],
    {
        let kl = self.kept.len() as u128;
        let sk = self.skipped as u128;
        if i < kl + sk {
            if i < 9 {
                self.kept[i as usize]
            } else {
                self.kept[(i - sk) as usize]
            }
        } else {
            buf[(i - kl - sk) as usize]
        }
    }

    /// The big-endian integer of `width` bytes at `i` of the bytes held followed by `buf`.
    fn be_at(&self, buf: &[u8], i: u128, width: u128) -> (r: u64)
        requires
            self.wf(),
            width == 3 || width == 4,
            i <= 0x2_0000_0000,
            i + width <= self.pending@.len() + buf@.len(),
            self.first && self.pending@.len() >= 9 ==> i + width <= 9 || i >= 9 + self.skipped,
        ensures
            width == 3 ==> r == be24(self.pending@ + buf@, i as int),
            width == 4 ==> r == be32(self.pending@ + buf@, i as int),
    {
        let a = self.byte_at(buf, i) as u64;
        let b = self.byte_at(buf, i + 1) as u64;
        let c = self.byte_at(buf, i + 2) as u64;
        if width == 3 {
            a * 0x1_0000 + b * 0x100 + c
        } else {
            let d = self.byte_at(buf, i + 3) as u64;
            a * 0x100_0000 + b * 0x1_0000 + c * 0x100 + d
        }
    }
}

impl FileDecoder {
    /// Adds the first `n` bytes of `buf` to the current item, keeping all but
    /// the padding that follows the fixed header.
    #[verifier::rlimit(100)]
    fn absorb(&mut self, buf: &[u8], n: usize)
        requires
            old(self).wf(),
            n <= buf@.len(),
            item_prefix_ok(old(self).first, old(self).pending@ + buf@.take(n as int)),
        ensures
            final(self).wf(),
            final(self).first == old(self).first,
            final(self).pending@ == old(self).pending@ + buf@.take(n as int),
            final(self).header == (if old(self).first && final(self).pending@.len() >= 9
                && final(self).pending@.len() >= data_offset(final(self).pending@) + 4 {
                Some(header_of(final(self).pending@))
            } else {
                old(self).header
            }),
    {
        let ghost start = self.pending@;
        let ghost grown = start + buf@.take(n as int);
        let mut k: usize = 0;
        if self.first {
            if self.kept.len() < 9 {
                let want = 9 - self.kept.len();
                k = if n < want {
                    n
                } else {
                    want
                };
                append_bytes(&mut self.kept, vstd::slice::slice_subrange(buf, 0, k));
                assert(self.kept@ =~= grown.take(self.kept@.len() as int));
            }
            if self.kept.len() >= 9 && k < n {
                assert(self.kept@.take(9) =~= grown.take(9));
                assert(be32(self.kept@, 5) == be32(grown, 5));
                let pad: u64 = read_u32(self.kept.as_slice(), 5) as u64 - 9;
                if self.skipped < pad {
                    let gap = pad - self.skipped;
                    let step: usize = if ((n - k) as u64) < gap {
                        n - k
                    } else {
                        gap as usize
                    };
                    self.skipped = self.skipped + step as u64;
                    k = k + step;
                }
            }
        }
        append_bytes(&mut self.kept, vstd::slice::slice_subrange(buf, k, n));
        self.pending = Ghost(grown);
        proof {
            if self.first && grown.len() >= 9 {
                assert(self.kept@ =~= grown.take(9) + grown.skip(9 + self.skipped));
            } else {
                assert(self.kept@ =~= grown);
            }
        }
        if self.first && self.header.is_none() && self.kept.len() >= 13 {
            self.header = Some(Header::from_flags(self.kept[4]));
            assert(header_of(seq![0u8, 0, 0, 0, self.kept@[4]]) == header_of(grown));
        }
    }

    /// Works out, without taking anything, what `decode` reports.
    #[verifier::rlimit(100)]
    fn plan(&self, buf: &[u8], eos: bool) -> (r: Result<usize, FlvError>)
        requires
            self.wf(),
        ensures
            match r {
                Ok(n) => item_step(self.first, self.pending@, buf@, eos) == Ok::<int, FlvError>(
                    n as int,
                ),
                Err(e) => item_step(self.first, self.pending@, buf@, eos) == Err::<int, FlvError>(
                    e,
                ),
            },
    {
        let ghost have = self.pending@;
        let ghost all = have + buf@;
        let plen: u128 = self.kept.len() as u128 + self.skipped as u128;
        let alen: u128 = plen + buf.len() as u128;
        let mut q: u128 = 0;
        if self.first {
            if alen < 9 {
                assert(buf@.take(buf@.len() as int) =~= buf@);
                if eos {
                    return Err(FlvError::PrematureEof);
                }
                return Ok(buf.len());
            }
            if self.byte_at(buf, 0) != 0x46 || self.byte_at(buf, 1) != 0x4C || self.byte_at(buf, 2)
                != 0x56 {
                return Err(FlvError::MalformedSignature);
            }
            let version = self.byte_at(buf, 3);
            if version != 1 {
                return Err(FlvError::UnknownVersion(version));
            }
            let offset = self.be_at(buf, 5, 4);
            if offset < 9 {
                return Err(FlvError::InvalidField(Field::DataOffset, offset as i64));
            }
            q = offset as u128 + 4;
            if alen >= q {
                let size = self.be_at(buf, q - 4, 4);
                if size != 0 {
                    return Err(FlvError::InvalidField(Field::PreviousTagSize, size as i64));
                }
            }
        }
        assert(q == frame_start(self.first, all));
        let mut n: u128 = buf.len() as u128;
        let mut l: u128 = 0;
        if alen >= q + 11 {
            let code = self.byte_at(buf, q);
            if let Err(e) = TagKind::from_u8(code) {
                return Err(e);
            }
            let size = self.be_at(buf, q + 1, 3);
            if alen >= q + 11 + size as u128 {
                let first_byte = if size > 0 {
                    self.byte_at(buf, q + 11)
                } else {
                    0
                };
                if is_payload_short(code, size as u32, first_byte) {
                    return Err(short_error(code));
                }
            }
            l = q + 11 + size as u128 + 4;
            proof {
                if have.len() >= q + 11 {
                    lemma_len_prefix(self.first, all, have.len() as int);
                    assert(all.take(have.len() as int) =~= have);
                }
            }
            if n > l - plen {
                n = l - plen;
            }
        }
        assert(item_error(self.first, all) is None);
        let ghost taken = have + buf@.take(n as int);
        proof {
            if !self.first || alen >= 9 {
                if taken.len() >= 9 || !self.first {
                    lemma_len_prefix(self.first, all, taken.len() as int);
                    assert(all.take(taken.len() as int) =~= taken);
                }
            }
        }
        let complete = alen >= q + 11 && plen + n == l;
        if eos && !complete && plen + n != q {
            return Err(FlvError::PrematureEof);
        }
        Ok(n as usize)
    }

    /// Takes bytes of the current item from `buf`, up to the end of its tag's
    /// size field, and returns how many it took. With `eos` set, no more bytes
    /// will come: an item left incomplete is an error, but one whose tag has
    /// not begun is not. Faults fail as soon as their bytes are in; see
    /// `item_error`.
    /// On an error nothing is taken.
    pub fn decode(&mut self, buf: &[u8], eos: bool) -> (r: Result<usize, FlvError>)
        requires
            old(self).wf(),
        ensures
            final(self).wf(),
            final(self).first() == old(self).first(),
            match r {
                Ok(n) => {
                    &&& item_step(old(self).first(), old(self).pending(), buf@, eos) == Ok::<
                        int,
                        FlvError,
                    >(n as int)
                    &&& final(self).pending() == old(self).pending() + buf@.take(n as int)
                    &&& final(self).header_view() == (if old(self).first()
                        && final(self).pending().len() >= 9 && final(self).pending().len()
                        >= data_offset(final(self).pending()) + 4 {
                        Some(header_of(final(self).pending()))
                    } else {
                        old(self).header_view()
                    })
                },
                Err(e) => {
                    &&& item_step(old(self).first(), old(self).pending(), buf@, eos) == Err::<
                        int,
                        FlvError,
                    >(e)
                    &&& *final(self) == *old(self)
                },
            },
    {
        let n = self.plan(buf, eos)?;
        proof {
            let have = self.pending@;
            let all = have + buf@;
            let taken = have + buf@.take(n as int);
            lemma_error_prefix(self.first, all, taken.len() as int);
            assert(all.take(taken.len() as int) =~= taken);
            if !self.first || taken.len() >= 9 {
                lemma_len_prefix(self.first, all, taken.len() as int);
            }
        }
        self.absorb(buf, n);
        Ok(n)
    }

    /// Whether the current item is complete, so that `finish_decoding` can be called.
    pub fn is_idle(&self) -> (r: bool)
        requires
            self.wf(),
        ensures
            r == item_complete(self.first(), self.pending()),
    {
        let kl = self.kept.len();
        if self.first {
            if kl < 9 {
                return false;
            }
            let pad: u64 = read_u32(self.kept.as_slice(), 5) as u64 - 9;
            if self.skipped < pad || kl < 24 {
                return false;
            }
            assert(self.pending@.subrange(0, 9) =~= self.kept@.subrange(0, 9));
            kl == 28 + read_u24(self.kept.as_slice(), 14) as usize
        } else {
            kl >= 11 && kl == 15 + read_u24(self.kept.as_slice(), 1) as usize
        }
    }

    /// How many more bytes the current item needs: exact once its tag header
    /// is in, and until then the bytes up to the end of that header.
    pub fn requiring_bytes(&self) -> (r: u64)
        requires
            self.wf(),
        ensures
            r == item_need(self.first(), self.pending()),
    {
        let kl = self.kept.len();
        if self.first {
            if kl < 9 {
                return (9 - kl) as u64;
            }
            let offset = read_u32(self.kept.as_slice(), 5) as u64;
            assert(be32(self.kept@, 5) == data_offset(self.pending@));
            if self.skipped < offset - 9 {
                return offset + 6 - self.skipped;
            }
            if kl < 24 {
                return (24 - kl) as u64;
            }
            assert(be24(self.kept@, 14) == be24(self.pending@, data_offset(self.pending@) + 5));
            (28 + read_u24(self.kept.as_slice(), 14) as usize - kl) as u64
        } else if kl < 11 {
            (11 - kl) as u64
        } else {
            (15 + read_u24(self.kept.as_slice(), 1) as usize - kl) as u64
        }
    }

    /// Returns the tag of the current item, checked against the size field
    /// that follows it, and makes the decoder ready for the next item, even
    /// when that check or the tag's payload fails. Fails when the item is not
    /// complete, leaving the decoder as it was.
    #[verifier::rlimit(80)]
    #[verifier::spinoff_prover]
    pub fn finish_decoding(&mut self) -> (r: Result<Tag, FlvError>)
        requires
            old(self).wf(),
        ensures
            final(self).wf(),
            if item_complete(old(self).first(), old(self).pending()) {
                &&& !final(self).first()
                &&& final(self).pending() == Seq::<u8>::empty()
                &&& final(self).header_view() == old(self).header_view()
                &&& match r {
                    Ok(t) => item_tag(old(self).first(), old(self).pending()) == Ok::<
                        TagView,
                        FlvError,
                    >(t@),
                    Err(e) => item_tag(old(self).first(), old(self).pending()) == Err::<
                        TagView,
                        FlvError,
                    >(e),
                }
            } else {
                &&& r == Err::<Tag, FlvError>(FlvError::InconsistentState)
                &&& *final(self) == *old(self)
            },
    {
        if !self.is_idle() {
            return Err(FlvError::InconsistentState);
        }
        let ghost p = self.pending@;
        let ghost q = frame_start(self.first, p);
        let kl = self.kept.len();
        let start: usize = if self.first {
            13
        } else {
            0
        };
        let frame = vstd::slice::slice_subrange(self.kept.as_slice(), start, kl - 4);
        assert(frame@ =~= p.subrange(q, p.len() - 4));
        assert(frame_complete(frame@));
        let trailer = read_u32(self.kept.as_slice(), kl - 4);
        assert(be32(self.kept@, kl - 4) == be32(p, p.len() - 4));
        let result = match decode_frame(frame) {
            Err(e) => Err(e),
            Ok(t) => {
                proof {
                    lemma_encode_decoded(frame@);
                }
                if t.tag_size() == trailer {
                    Ok(t)
                } else {
                    Err(FlvError::SizeMismatch(t.kind()))
                }
            },
        };
        self.first = false;
        self.kept = Vec::new();
        self.skipped = 0;
        self.pending = Ghost(Seq::empty());
        result
    }
}

impl Default for FileDecoder {
    fn default() -> (r: Self)
        ensures
            r.wf(),
            r.first(),
            r.pending() == Seq::<u8>::empty(),
            r.header_view() is None,
    {
        FileDecoder::new()
    }
}

/// Encodes a file: the header and a zero size field first, then each tag
/// followed by its size.
pub struct FileEncoder {
    bytes: Vec<u8>,
    pos: usize,
    header_end: usize,
}

impl FileEncoder {
    /// The bytes not yet written.
    pub closed spec fn pending(&self) -> Seq<u8> {
        self.bytes@.subrange(self.pos as int, self.bytes@.len() as int)
    }

    /// Whether bytes of a tag are still to be written.
    pub closed spec fn tag_pending(&self) -> bool {
        self.bytes@.len() > self.pos && self.bytes@.len() > self.header_end
    }

    pub closed spec fn wf(&self) -> bool {
        &&& self.pos <= self.bytes@.len()
        &&& self.header_end <= self.bytes@.len()
    }

    /// An encoder that first writes `header`.
    pub fn new(header: Header) -> (r: Self)
        ensures
            r.wf(),
            r.pending() == header_bytes(header) + u32_bytes(0),
            !r.tag_pending(),
    {
        let mut bytes: Vec<u8> = Vec::new();
        bytes.push(0x46);
        bytes.push(0x4C);
        bytes.push(0x56);
        bytes.push(1);
        bytes.push(header.flags());
        push_u32(&mut bytes, 9);
        push_u32(&mut bytes, 0);
        let r = FileEncoder { bytes, pos: 0, header_end: 13 };
        assert(r.pending() =~= header_bytes(header) + u32_bytes(0));
        r
    }

    /// Starts writing `tag` and its size. Fails, changing nothing, while the
    /// last tag is not all written, or when `tag` is not validly constructed.
    pub fn start_encoding(&mut self, tag: Tag) -> (r: Result<(), FlvError>)
        requires
            old(self).wf(),
        ensures
            final(self).wf(),
            match r {
                Ok(()) => {
                    &&& !old(self).tag_pending()
                    &&& tag@.wf()
                    &&& final(self).pending() == old(self).pending() + tag@.bytes() + u32_bytes(
                        tag@.size(),
                    )
                    &&& final(self).tag_pending()
                },
                Err(e) => {
                    &&& *final(self) == *old(self)
                    &&& e == if old(self).tag_pending() {
                        FlvError::InconsistentState
                    } else {
                        FlvError::InvalidTag(tag@.kind())
                    }
                    &&& (old(self).tag_pending() || !tag@.wf())
                },
            },
    {
        if self.bytes.len() > self.pos && self.bytes.len() > self.header_end {
            return Err(FlvError::InconsistentState);
        }
        if !tag.is_valid() {
            return Err(FlvError::InvalidTag(tag.kind()));
        }
        let ghost before = self.pending();
        if self.pos == self.bytes.len() {
            self.bytes = Vec::new();
            self.pos = 0;
            self.header_end = 0;
        }
        assert(self.pending() =~= before);
        proof {
            crate::frame::lemma_decode_encoded(tag@);
        }
        let size = tag.tag_size();
        let encoded = encode_tag(&tag);
        append_bytes(&mut self.bytes, encoded.as_slice());
        push_u32(&mut self.bytes, size);
        assert(self.pending() =~= before + tag@.bytes() + u32_bytes(tag@.size()));
        Ok(())
    }

    /// Writes as many pending bytes as fit at the front of `buf`, and returns
    /// how many it wrote.
    pub fn encode(&mut self, buf: &mut [u8]) -> (r: usize)
        requires
            old(self).wf(),
        ensures
            final(self).wf(),
            r == if old(buf)@.len() < old(self).pending().len() {
                old(buf)@.len()
            } else {
                old(self).pending().len()
            },
            final(buf)@ == old(self).pending().take(r as int) + old(buf)@.skip(r as int),
            final(self).pending() == old(self).pending().skip(r as int),
            final(self).tag_pending() == (old(self).tag_pending() && r < old(self).pending().len()),
    {
        let left = self.bytes.len() - self.pos;
        let n: usize = if buf.len() < left {
            buf.len()
        } else {
            left
        };
        let pos = self.pos;
        let mut i: usize = 0;
        while i < n
            invariant
                n <= buf@.len(),
                pos == self.pos,
                pos + n <= self.bytes@.len(),
                self.bytes@.len() <= usize::MAX,
                i <= n,
                buf@.len() == old(buf)@.len(),
                forall|j: int| 0 <= j < i ==> buf@[j] == self.bytes@[pos + j],
                forall|j: int| i <= j < buf@.len() ==> buf@[j] == old(buf)@[j],
            decreases n - i,
        {
            buf[i] = self.bytes[pos + i];
            i += 1;
        }
        let ghost before = self.pending();
        self.pos = self.pos + n;
        assert(buf@ =~= before.take(n as int) + old(buf)@.skip(n as int));
        assert(self.pending() =~= before.skip(n as int));
        n
    }

    /// Whether every byte given so far has been written.
    pub fn is_idle(&self) -> (r: bool)
        requires
            self.wf(),
        ensures
            r == (self.pending().len() == 0),
    {
        self.pos == self.bytes.len()
    }

    /// How many bytes are left to write.
    pub fn requiring_bytes(&self) -> (r: u64)
        requires
            self.wf(),
        ensures
            r == self.pending().len(),
    {
        (self.bytes.len() - self.pos) as u64
    }
}

impl Default for FileEncoder {
    /// An encoder for a file that has both audio and video.
    fn default() -> (r: Self)
        ensures
            r.wf(),
            r.pending() == header_bytes(Header { has_audio: true, has_video: true }) + u32_bytes(0),
            !r.tag_pending(),
    {
        FileEncoder::new(Header { has_audio: true, has_video: true })
    }
}

/// Offering `a` taken whole, then `b`, matches offering `a + b`.
#[verifier::rlimit(30)]
proof fn lemma_chunk_whole(first: bool, have: Seq<u8>, a: Seq<u8>, b: Seq<u8>, eos: bool)
    requires
        item_prefix_ok(first, have),
        item_step(first, have, a, false) == Ok::<int, FlvError>(a.len() as int),
    ensures
        item_take(first, have, a + b) == item_take(first, have + a, b) + a.len(),
        have + (a + b).take(item_take(first, have, a + b)) == (have + a) + b.take(
            item_take(first, have + a, b),
        ),
        item_step(first, have, a + b, eos) == match item_step(first, have + a, b, eos) {
            Ok(n) => Ok::<int, FlvError>(n + a.len()),
            Err(e) => Err(e),
        },
{
    let ha = have + a;
    let all = ha + b;
    assert(have + (a + b) =~= all);
    assert(ha =~= all.take(ha.len() as int));
    assert(have + a.take(a.len() as int) =~= ha);
    if !first || ha.len() >= 9 {
        lemma_len_prefix(first, all, ha.len() as int);
    }
    let n2 = item_take(first, ha, b);
    assert(have + (a + b).take(n2 + a.len()) =~= ha + b.take(n2));
}

/// When the item ends inside `a`, offering `a + b` takes the same bytes.
#[verifier::rlimit(30)]
proof fn lemma_chunk_inside(first: bool, have: Seq<u8>, a: Seq<u8>, b: Seq<u8>, eos: bool)
    requires
        item_prefix_ok(first, have),
        item_step(first, have, a, false) is Ok,
        item_step(first, have, a, false)->Ok_0 < a.len(),
    ensures
        item_step(first, have, a + b, eos) == item_step(first, have, a, false),
{
    let ha = have + a;
    let all = ha + b;
    assert(have + (a + b) =~= all);
    assert(ha =~= all.take(ha.len() as int));
    let n = item_step(first, have, a, false)->Ok_0;
    assert(first ==> ha.len() >= 9);
    lemma_len_prefix(first, all, ha.len() as int);
    assert(have + a.take(n) =~= have + (a + b).take(n));
    if item_error(first, all) is Some {
        lemma_error_prefix_some(first, all, ha.len() as int);
    }
}

/// An error that `a` shows, `a + b` shows too.
#[verifier::rlimit(30)]
proof fn lemma_chunk_error(first: bool, have: Seq<u8>, a: Seq<u8>, b: Seq<u8>, eos: bool)
    requires
        item_step(first, have, a, false) is Err,
    ensures
        item_step(first, have, a + b, eos) == item_step(first, have, a, false),
{
    let ha = have + a;
    let all = ha + b;
    assert(have + (a + b) =~= all);
    assert(ha =~= all.take(ha.len() as int));
    assert(item_error(first, ha) is Some);
    lemma_error_prefix_some(first, all, ha.len() as int);
}

/// The first fault that a prefix shows is the first that the whole shows,
/// and a fault of the whole shows in any prefix that reaches the end of the
/// item's tag frame.
pub proof fn lemma_error_prefix_some(first: bool, s: Seq<u8>, m: int)
    requires
        0 <= m <= s.len(),
        item_error(first, s.take(m)) is Some || (item_error(first, s) is Some && (first ==> m >= 9)
            && m >= frame_start(first, s) + 11 && m >= frame_start(first, s) + 11 + be24(
            s,
            frame_start(first, s) + 1,
        )),
    ensures
        item_error(first, s.take(m)) == item_error(first, s),
{
    let t = s.take(m);
    if first && t.len() >= 9 {
        assert(t.subrange(0, 9) =~= s.subrange(0, 9));
        assert(data_offset(t) == data_offset(s));
    }
}

/// Chunked delivery: offering `a` and then `b` comes to the same as offering
/// `a + b` at once. When `a` is taken whole, the bytes then taken from `b`,
/// the error and the item reached are those of the single offer; when the
/// item ends inside `a`, the single offer takes the same bytes; and an error
/// that `a` shows, the single offer shows too.
pub proof fn lemma_chunked_delivery(first: bool, have: Seq<u8>, a: Seq<u8>, b: Seq<u8>, eos: bool)
    requires
        item_prefix_ok(first, have),
    ensures
        item_step(first, have, a, false) == Ok::<int, FlvError>(a.len() as int) ==> {
            &&& item_step(first, have, a + b, eos) == match item_step(first, have + a, b, eos) {
                Ok(n) => Ok::<int, FlvError>(n + a.len()),
                Err(e) => Err(e),
            }
            &&& (have + a) + b.take(item_take(first, have + a, b)) == have + (a + b).take(
                item_take(first, have, a + b),
            )
        },
        item_step(first, have, a, false) is Ok && item_step(first, have, a, false)->Ok_0 < a.len()
            ==> item_step(first, have, a + b, eos) == item_step(first, have, a, false),
        item_step(first, have, a, false) is Err ==> item_step(first, have, a + b, eos)
            == item_step(first, have, a, false),
{
    if item_step(first, have, a, false) is Err {
        lemma_chunk_error(first, have, a, b, eos);
    } else if item_step(first, have, a, false)->Ok_0 < a.len() {
        lemma_chunk_inside(first, have, a, b, eos);
    } else if item_step(first, have, a, false) == Ok::<int, FlvError>(a.len() as int) {
        lemma_chunk_whole(first, have, a, b, eos);
    }
}

/// The 13 bytes of a header without padding and of a zero size field are
/// those the encoder writes for the header they describe.
pub proof fn lemma_header_prefix(s: Seq<u8>)
    requires
        s.len() >= 13,
        header_error(s) is None,
        data_offset(s) == 9,
        be32(s, 9) == 0,
        s[4] == 0 || s[4] == 1 || s[4] == 4 || s[4] == 5,
    ensures
        s.take(13) == header_bytes(header_of(s)) + u32_bytes(0),
{
    crate::wire::lemma_be32_bytes(s, 9);
    crate::wire::lemma_be32_bytes(s, 5);
    let x = s[4];
    assert(header_flags(header_of(s)) == x) by {
        assert(x / 4 % 2 == 1 <==> (x == 4 || x == 5));
        assert(x % 2 == 1 <==> (x == 1 || x == 5));
    }
    assert(s.take(13) =~= header_bytes(header_of(s)) + u32_bytes(0));
}

/// Re-encoding the tag of a complete item gives back the item byte for byte,
/// provided, for the file's first item, that the header declares no padding
/// and sets no flag bits but those for audio and video.
#[verifier::rlimit(50)]
pub proof fn lemma_reencode_item(first: bool, s: Seq<u8>)
    requires
        item_prefix_ok(first, s),
        item_complete(first, s),
        item_tag(first, s) is Ok,
        first ==> data_offset(s) == 9,
        first ==> s[4] == 0 || s[4] == 1 || s[4] == 4 || s[4] == 5,
    ensures
        ({
            let v = item_tag(first, s)->Ok_0;
            let tail = v.bytes() + u32_bytes(v.size());
            s == if first {
                header_bytes(header_of(s)) + u32_bytes(0) + tail
            } else {
                tail
            }
        }),
{
    let v = item_tag(first, s)->Ok_0;
    let q = frame_start(first, s);
    let l = s.len() as int;
    let frame = s.subrange(q, l - 4);
    lemma_encode_decoded(frame);
    crate::wire::lemma_be32_bytes(s, l - 4);
    let tail = frame + s.subrange(l - 4, l);
    assert(s.subrange(q, l) =~= tail);
    if first {
        lemma_header_prefix(s);
        assert(s =~= s.take(13) + tail);
    } else {
        assert(s =~= tail);
    }
}

} // verus!
