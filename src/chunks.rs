//! Decoding a whole file delivered as a sequence of chunks.
use vstd::prelude::*;

use crate::error::FlvError;
use crate::file::{
    FileDecoder, frame_start, item_complete, item_error, item_len, item_prefix_ok, item_step,
    item_tag, item_take, lemma_error_prefix, lemma_error_prefix_some, lemma_header_prefix,
    lemma_len_prefix, lemma_reencode_item, no_tag_begun,
};
use crate::header::{data_offset, header_bytes, header_of};
use crate::wire::u32_bytes;
use crate::tag::{Tag, TagView};

verus! {

/// The bytes of all chunks, in order.
pub open spec fn concat(chunks: Seq<Seq<u8>>) -> Seq<u8>
    decreases chunks.len(),
{
    if chunks.len() == 0 {
        Seq::empty()
    } else {
        chunks[0] + concat(chunks.skip(1))
    }
}

/// The views of the chunks.
pub open spec fn chunk_views(chunks: Seq<Vec<u8>>) -> Seq<Seq<u8>> {
    chunks.map_values(|c: Vec<u8>| c@)
}

/// The views of the tags.
pub open spec fn tag_views(tags: Seq<Tag>) -> Seq<TagView> {
    tags.map_values(|t: Tag| t@)
}

/// `done` followed by the tags of `r`, or the error of `r`.
pub open spec fn prepend(done: Seq<TagView>, r: Result<Seq<TagView>, FlvError>) -> Result<
    Seq<TagView>,
    FlvError,
> {
    match r {
        Ok(rest) => Ok(done + rest),
        Err(e) => Err(e),
    }
}

/// The tags of the stream `s`, item by item up to its end, where `first`
/// says whether `s` begins with the file header; or the first error.
#[verifier::opaque]
pub open spec fn stream_tags(first: bool, s: Seq<u8>) -> Result<Seq<TagView>, FlvError>
    decreases s.len(),
{
    match item_step(first, Seq::empty(), s, true) {
        Err(e) => Err(e),
        Ok(n) => if 0 < n <= s.len() && item_complete(first, s.take(n)) {
            match item_tag(first, s.take(n)) {
                Err(e) => Err(e),
                Ok(v) => prepend(seq![v], stream_tags(false, s.skip(n))),
            }
        } else {
            Ok(Seq::empty())
        },
    }
}

/// The stream after the chunks before `i` is chunk `i` and then the rest.
proof fn lemma_concat_skip(chunks: Seq<Seq<u8>>, i: int)
    requires
        0 <= i < chunks.len(),
    ensures
        concat(chunks.skip(i)) == chunks[i] + concat(chunks.skip(i + 1)),
{
    assert(chunks.skip(i).skip(1) =~= chunks.skip(i + 1));
}

/// A complete item heads the stream: its tag, then the tags of what follows.
#[verifier::rlimit(30)]
proof fn lemma_finish_step(first: bool, p: Seq<u8>, rest: Seq<u8>)
    requires
        item_prefix_ok(first, p),
        item_complete(first, p),
    ensures
        stream_tags(first, p + rest) == match item_tag(first, p) {
            Err(e) => Err(e),
            Ok(v) => prepend(seq![v], stream_tags(false, rest)),
        },
{
    reveal(stream_tags);
    let s = p + rest;
    assert(s.take(p.len() as int) =~= p);
    lemma_len_prefix(first, s, p.len() as int);
    if item_error(first, s) is Some {
        lemma_error_prefix_some(first, s, p.len() as int);
    }
    assert(Seq::<u8>::empty() + s =~= s);
    assert(Seq::<u8>::empty() + s.take(p.len() as int) =~= p);
    assert(s.skip(p.len() as int) =~= rest);
}

/// A fault that the bytes held and offered show is the stream's error.
proof fn lemma_error_step(first: bool, p: Seq<u8>, x: Seq<u8>, rest: Seq<u8>)
    requires
        item_error(first, p + x) is Some,
        x.len() <= rest.len(),
        x == rest.take(x.len() as int),
    ensures
        stream_tags(first, p + rest) == Err::<Seq<TagView>, FlvError>(
            item_error(first, p + x)->Some_0,
        ),
{
    reveal(stream_tags);
    let s = p + rest;
    assert(s.take((p + x).len() as int) =~= p + x);
    lemma_error_prefix_some(first, s, (p + x).len() as int);
    assert(Seq::<u8>::empty() + s =~= s);
}

/// At the end of the stream, what is held is the whole stream.
proof fn lemma_end_step(first: bool, p: Seq<u8>)
    requires
        item_prefix_ok(first, p),
        !item_complete(first, p),
    ensures
        stream_tags(first, p) == match item_step(first, p, Seq::empty(), true) {
            Err(e) => Err(e),
            Ok(_) => Ok::<Seq<TagView>, FlvError>(Seq::empty()),
        },
{
    reveal(stream_tags);
    assert(Seq::<u8>::empty() + p =~= p);
    assert(p + Seq::<u8>::empty() =~= p);
    assert(Seq::<u8>::empty() + p.take(p.len() as int) =~= p);
    assert(p + Seq::<u8>::empty().take(0) =~= p);
}

/// An incomplete item takes at least one byte of a nonempty offer, and takes
/// fewer than offered only when that completes it.
proof fn lemma_progress(first: bool, p: Seq<u8>, x: Seq<u8>)
    requires
        item_prefix_ok(first, p),
        !item_complete(first, p),
        x.len() > 0,
    ensures
        1 <= item_take(first, p, x) <= x.len(),
        item_take(first, p, x) < x.len() ==> item_complete(
            first,
            p + x.take(item_take(first, p, x)),
        ),
{
    let all = p + x;
    assert(all.take(p.len() as int) =~= p);
    if !first || p.len() >= 9 {
        lemma_len_prefix(first, all, p.len() as int);
    }
    let n = item_take(first, p, x);
    if n < x.len() {
        let t = p + x.take(n);
        assert(all.take(t.len() as int) =~= t);
        lemma_len_prefix(first, all, t.len() as int);
    }
}

/// Adding a tag to those done and prepending the rest of the result agree.
proof fn lemma_prepend_push(done: Seq<TagView>, v: TagView, r: Result<Seq<TagView>, FlvError>)
    ensures
        prepend(done + seq![v], r) == prepend(done, prepend(seq![v], r)),
{
    if r is Ok {
        assert((done + seq![v]) + r->Ok_0 =~= done + (seq![v] + r->Ok_0));
    }
}

/// Offers `part` to the decoder once, and takes out the tag if that completes
/// it. Returns the number of bytes taken, at least one.
#[verifier::rlimit(30)]
fn feed_once(
    decoder: &mut FileDecoder,
    tags: &mut Vec<Tag>,
    part: &[u8],
    Ghost(later): Ghost<Seq<u8>>,
) -> (r: Result<usize, FlvError>)
    requires
        old(decoder).wf(),
        !item_complete(old(decoder).first(), old(decoder).pending()),
        part@.len() > 0,
    ensures
        match r {
            Ok(n) => {
                &&& 1 <= n <= part@.len()
                &&& final(decoder).wf()
                &&& !item_complete(final(decoder).first(), final(decoder).pending())
                &&& prepend(
                    tag_views(final(tags)@),
                    stream_tags(
                        final(decoder).first(),
                        final(decoder).pending() + (part@.skip(n as int) + later),
                    ),
                ) == prepend(
                    tag_views(old(tags)@),
                    stream_tags(old(decoder).first(), old(decoder).pending() + (part@ + later)),
                )
            },
            Err(e) => prepend(
                tag_views(old(tags)@),
                stream_tags(old(decoder).first(), old(decoder).pending() + (part@ + later)),
            ) == Err::<Seq<TagView>, FlvError>(e),
        },
{
    let ghost p = decoder.pending();
    let ghost f = decoder.first();
    let ghost rest = part@ + later;
    proof {
        decoder.lemma_wf();
        lemma_progress(f, p, part@);
    }
    let n = match decoder.decode(part, false) {
        Err(e) => {
            proof {
                assert(rest.take(part@.len() as int) =~= part@);
                lemma_error_step(f, p, part@, rest);
            }
            return Err(e);
        },
        Ok(n) => n,
    };
    let ghost held = decoder.pending();
    let ghost after = part@.skip(n as int) + later;
    assert(held + after =~= p + rest);
    if decoder.is_idle() {
        proof {
            decoder.lemma_wf();
            lemma_finish_step(f, held, after);
        }
        match decoder.finish_decoding() {
            Err(e) => {
                return Err(e);
            },
            Ok(t) => {
                let ghost before = tag_views(tags@);
                tags.push(t);
                assert(tag_views(tags@) =~= before + seq![t@]);
                assert(Seq::<u8>::empty() + after =~= after);
                proof {
                    lemma_prepend_push(before, t@, stream_tags(false, after));
                }
            },
        }
    }
    Ok(n)
}

/// Offers all of `chunk` to the decoder, taking out each tag completed.
#[verifier::rlimit(30)]
fn feed_chunk(
    decoder: &mut FileDecoder,
    tags: &mut Vec<Tag>,
    chunk: &[u8],
    Ghost(later): Ghost<Seq<u8>>,
) -> (r: Result<(), FlvError>)
    requires
        old(decoder).wf(),
        !item_complete(old(decoder).first(), old(decoder).pending()),
    ensures
        match r {
            Ok(()) => {
                &&& final(decoder).wf()
                &&& !item_complete(final(decoder).first(), final(decoder).pending())
                &&& prepend(
                    tag_views(final(tags)@),
                    stream_tags(final(decoder).first(), final(decoder).pending() + later),
                ) == prepend(
                    tag_views(old(tags)@),
                    stream_tags(old(decoder).first(), old(decoder).pending() + (chunk@ + later)),
                )
            },
            Err(e) => prepend(
                tag_views(old(tags)@),
                stream_tags(old(decoder).first(), old(decoder).pending() + (chunk@ + later)),
            ) == Err::<Seq<TagView>, FlvError>(e),
        },
{
    let ghost goal = prepend(
        tag_views(tags@),
        stream_tags(decoder.first(), decoder.pending() + (chunk@ + later)),
    );
    assert(chunk@.skip(0) =~= chunk@);
    let mut offset: usize = 0;
    while offset < chunk.len()
        invariant
            offset <= chunk@.len(),
            goal == prepend(
                tag_views(old(tags)@),
                stream_tags(old(decoder).first(), old(decoder).pending() + (chunk@ + later)),
            ),
            decoder.wf(),
            !item_complete(decoder.first(), decoder.pending()),
            prepend(
                tag_views(tags@),
                stream_tags(decoder.first(), decoder.pending() + (chunk@.skip(offset as int) + later)),
            ) == goal,
        decreases chunk@.len() - offset,
    {
        let part = vstd::slice::slice_subrange(chunk, offset, chunk.len());
        assert(part@ =~= chunk@.skip(offset as int));
        let n = match feed_once(decoder, tags, part, Ghost(later)) {
            Ok(n) => n,
            Err(e) => {
                return Err(e);
            },
        };
        assert(part@.skip(n as int) =~= chunk@.skip(offset + n));
        offset = offset + n;
    }
    assert(chunk@.skip(offset as int) + later =~= later);
    Ok(())
}

/// Decodes a whole file delivered in `chunks`, which may split it anywhere,
/// and returns its tags. The result depends only on the bytes of all chunks
/// in order, not on where the chunks begin and end.
#[verifier::rlimit(30)]
pub fn decode_chunks(chunks: &Vec<Vec<u8>>) -> (r: Result<Vec<Tag>, FlvError>)
    ensures
        match r {
            Ok(tags) => stream_tags(true, concat(chunk_views(chunks@))) == Ok::<
                Seq<TagView>,
                FlvError,
            >(tag_views(tags@)),
            Err(e) => stream_tags(true, concat(chunk_views(chunks@))) == Err::<
                Seq<TagView>,
                FlvError,
            >(e),
        },
{
    let ghost views = chunk_views(chunks@);
    let ghost whole = concat(views);
    let mut decoder = FileDecoder::new();
    let mut tags: Vec<Tag> = Vec::new();
    assert(tag_views(tags@) =~= Seq::<TagView>::empty());
    assert(views.skip(0) =~= views);
    assert(Seq::<u8>::empty() + whole =~= whole);
    let mut i: usize = 0;
    while i < chunks.len()
        invariant
            i <= chunks@.len(),
            views == chunk_views(chunks@),
            whole == concat(views),
            decoder.wf(),
            !item_complete(decoder.first(), decoder.pending()),
            prepend(
                tag_views(tags@),
                stream_tags(decoder.first(), decoder.pending() + concat(views.skip(i as int))),
            ) == stream_tags(true, whole),
        decreases chunks@.len() - i,
    {
        proof {
            lemma_concat_skip(views, i as int);
        }
        if let Err(e) = feed_chunk(
            &mut decoder,
            &mut tags,
            chunks[i].as_slice(),
            Ghost(concat(views.skip(i + 1))),
        ) {
            return Err(e);
        }
        i = i + 1;
    }
    let ghost p = decoder.pending();
    let ghost f = decoder.first();
    proof {
        assert(views.skip(chunks@.len() as int) =~= Seq::<Seq<u8>>::empty());
        assert(p + concat(views.skip(i as int)) =~= p);
        decoder.lemma_wf();
        lemma_end_step(f, p);
    }
    let empty: [u8; 0] = [];
    match decoder.decode(&empty, true) {
        Err(e) => Err(e),
        Ok(_) => {
            assert(tag_views(tags@) + Seq::<TagView>::empty() =~= tag_views(tags@));
            Ok(tags)
        },
    }
}

/// Chunked delivery: a file cut into any chunks, even of one byte each,
/// decodes through `decode_chunks` to the same tags, or the same error, as
/// the same bytes delivered as one buffer.
pub proof fn lemma_chunked_as_one_buffer(chunks: Seq<Seq<u8>>)
    ensures
        stream_tags(true, concat(chunks)) == stream_tags(true, concat(seq![concat(chunks)])),
{
    let one = seq![concat(chunks)];
    assert(one.skip(1) =~= Seq::<Seq<u8>>::empty());
    assert(concat(one.skip(1)) == Seq::<u8>::empty());
    assert(concat(one) == one[0] + concat(one.skip(1)));
    assert(concat(one) =~= concat(chunks));
}

/// The bytes that the encoder writes for the tags `vs`: each tag, then its size.
pub open spec fn tags_bytes(vs: Seq<TagView>) -> Seq<u8>
    decreases vs.len(),
{
    if vs.len() == 0 {
        Seq::empty()
    } else {
        vs[0].bytes() + u32_bytes(vs[0].size()) + tags_bytes(vs.skip(1))
    }
}

/// A stream whose first step takes no tag is the header region and the
/// first size field, or nothing.
#[verifier::rlimit(50)]
#[verifier::spinoff_prover]
proof fn lemma_reencode_end(first: bool, s: Seq<u8>)
    requires
        item_step(first, Seq::empty(), s, true) is Ok,
        !(0 < item_step(first, Seq::empty(), s, true)->Ok_0 <= s.len() && item_complete(
            first,
            s.take(item_step(first, Seq::empty(), s, true)->Ok_0),
        )),
        first ==> s.len() >= 9 && data_offset(s) == 9 && (s[4] == 0 || s[4] == 1 || s[4] == 4
            || s[4] == 5),
    ensures
        s == if first {
            header_bytes(header_of(s)) + u32_bytes(0)
        } else {
            Seq::<u8>::empty()
        },
{
    assert(Seq::<u8>::empty() + s =~= s);
    let n = item_step(first, Seq::empty(), s, true)->Ok_0;
    assert(item_error(first, s) is None);
    let t = Seq::<u8>::empty() + s.take(n);
    if !first || t.len() >= 9 {
        lemma_len_prefix(first, s, t.len() as int);
        assert(s.take(t.len() as int) =~= t);
    }
    assert(no_tag_begun(first, t));
    assert(t =~= s);
    if first {
        lemma_header_prefix(s);
        assert(s =~= s.take(13));
    } else {
        assert(s =~= Seq::<u8>::empty());
    }
}

/// The first complete item of a stream re-encodes byte for byte.
#[verifier::rlimit(50)]
#[verifier::spinoff_prover]
proof fn lemma_reencode_head(first: bool, s: Seq<u8>, n: int)
    requires
        item_error(first, s) is None,
        0 < n <= s.len(),
        item_complete(first, s.take(n)),
        item_tag(first, s.take(n)) is Ok,
        first ==> s.len() >= 9 && data_offset(s) == 9 && (s[4] == 0 || s[4] == 1 || s[4] == 4
            || s[4] == 5),
    ensures
        ({
            let v = item_tag(first, s.take(n))->Ok_0;
            s.take(n) == (if first {
                header_bytes(header_of(s)) + u32_bytes(0)
            } else {
                Seq::<u8>::empty()
            }) + v.bytes() + u32_bytes(v.size())
        }),
{
    let t = s.take(n);
    lemma_error_prefix(first, s, n);
    if first {
        assert(data_offset(t) == data_offset(s));
        assert(header_of(t) == header_of(s));
    }
    lemma_reencode_item(first, t);
    if !first {
        let v = item_tag(first, t)->Ok_0;
        assert(t =~= Seq::<u8>::empty() + v.bytes() + u32_bytes(v.size()));
    }
}

/// Byte-exact re-encoding of a whole file: a stream that decodes without
/// error is exactly what the encoder writes for its header (when it begins
/// the file) and its tags, provided the header declares no padding and sets
/// no flag bits but those for audio and video.
#[verifier::rlimit(100)]
#[verifier::spinoff_prover]
pub proof fn lemma_reencode_stream(first: bool, s: Seq<u8>)
    requires
        stream_tags(first, s) is Ok,
        first ==> s.len() >= 9 && data_offset(s) == 9 && (s[4] == 0 || s[4] == 1 || s[4] == 4
            || s[4] == 5),
    ensures
        s == (if first {
            header_bytes(header_of(s)) + u32_bytes(0)
        } else {
            Seq::<u8>::empty()
        }) + tags_bytes(stream_tags(first, s)->Ok_0),
    decreases s.len(),
{
    reveal(stream_tags);
    assert(Seq::<u8>::empty() + s =~= s);
    let n = item_step(first, Seq::empty(), s, true)->Ok_0;
    assert(item_error(first, s) is None);
    if 0 < n <= s.len() && item_complete(first, s.take(n)) {
        lemma_reencode_head(first, s, n);
        let rest = s.skip(n);
        lemma_reencode_stream(false, rest);
        let v = item_tag(first, s.take(n))->Ok_0;
        let vs = stream_tags(false, rest)->Ok_0;
        assert(stream_tags(first, s)->Ok_0 == seq![v] + vs);
        assert((seq![v] + vs).skip(1) =~= vs);
        assert(tags_bytes(seq![v] + vs) == v.bytes() + u32_bytes(v.size()) + tags_bytes(vs));
        assert(s =~= s.take(n) + rest);
        if first {
            assert(s =~= header_bytes(header_of(s)) + u32_bytes(0) + tags_bytes(seq![v] + vs));
        } else {
            assert(s =~= Seq::<u8>::empty() + tags_bytes(seq![v] + vs));
        }
    } else {
        lemma_reencode_end(first, s);
        assert(stream_tags(first, s)->Ok_0 == Seq::<TagView>::empty());
        assert(tags_bytes(Seq::<TagView>::empty()) == Seq::<u8>::empty());
        assert(s =~= s + Seq::<u8>::empty());
    }
}

} // verus!
