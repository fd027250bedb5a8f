//! Splitting a byte stream into delimited frames.

use vstd::prelude::*;

use crate::backend::Framing;

verus! {

/// Maximum bytes buffered for a single in-progress frame before the partial frame is
/// discarded. Real CAT frames are tens of bytes; this only bounds a stuck or noisy link.
pub const MAX_RADIO_FRAME_LEN: usize = 4096;

/// The complete frames that bytes make behind a partial frame, and the partial frame that is
/// left. A partial frame that has reached its longest size is dropped before the next byte.
pub open spec fn fed(partial: Seq<u8>, bytes: Seq<u8>, delim: u8) -> (Seq<Seq<u8>>, Seq<u8>)
    decreases bytes.len(),
{
    if bytes.len() == 0 {
        (Seq::empty(), partial)
    } else {
        let kept = if partial.len() >= MAX_RADIO_FRAME_LEN {
            Seq::empty()
        } else {
            partial
        };
        let grown = kept.push(bytes[0]);
        if bytes[0] == delim {
            let (frames, rest) = fed(Seq::empty(), bytes.skip(1), delim);
            (seq![grown] + frames, rest)
        } else {
            fed(grown, bytes.skip(1), delim)
        }
    }
}

/// The sequences of a vector of byte vectors.
pub open spec fn byte_seqs(v: Seq<Vec<u8>>) -> Seq<Seq<u8>> {
    v.map_values(|b: Vec<u8>| b@)
}

/// Splits a byte stream into frames.
#[derive(Debug)]
pub struct Framer {
    delim: u8,
    buf: Vec<u8>,
}

impl Framer {
    /// The byte that ends a frame.
    pub closed spec fn delim(&self) -> u8 {
        self.delim
    }

    /// The partial frame.
    pub closed spec fn partial(&self) -> Seq<u8> {
        self.buf@
    }

    /// The partial frame never grows without bound.
    pub open spec fn wf(&self) -> bool {
        self.partial().len() <= MAX_RADIO_FRAME_LEN
    }

    /// A framer for a radio's framing.
    #[must_use]
    pub fn new(framing: Framing) -> (r: Self)
        ensures
            r.wf(),
            r.delim() == framing.delim(),
            r.partial() == Seq::<u8>::empty(),
    {
        Framer { delim: framing.delimiter(), buf: Vec::new() }
    }

    /// A framer for requests that end with `delim`.
    #[must_use]
    pub fn with_delimiter(delim: u8) -> (r: Self)
        ensures
            r.wf(),
            r.delim() == delim,
            r.partial() == Seq::<u8>::empty(),
    {
        Framer { delim, buf: Vec::new() }
    }

    /// The byte that ends a frame.
    #[must_use]
    pub fn delimiter(&self) -> (r: u8)
        ensures
            r == self.delim(),
    {
        self.delim
    }

    /// How many bytes of a partial frame are held.
    #[must_use]
    pub fn buffered_len(&self) -> (r: usize)
        ensures
            r == self.partial().len(),
    {
        self.buf.len()
    }

    /// Feed bytes; return any complete frames (delimiter included).
    pub fn push(&mut self, bytes: &[u8]) -> (r: Vec<Vec<u8>>)
        requires
            old(self).wf(),
        ensures
            final(self).wf(),
            final(self).delim() == old(self).delim(),
            (byte_seqs(r@), final(self).partial()) == fed(
                old(self).partial(),
                bytes@,
                old(self).delim(),
            ),
    {
        let mut frames: Vec<Vec<u8>> = Vec::new();
        let mut i: usize = 0;
        let ghost want = fed(self.buf@, bytes@, self.delim);
        let ghost delim = self.delim;
        proof {
            assert(bytes@.skip(0) =~= bytes@);
            assert(byte_seqs(frames@) + want.0 =~= want.0);
        }
        while i < bytes.len()
            invariant
                i <= bytes@.len(),
                self.delim == delim,
                self.buf@.len() <= MAX_RADIO_FRAME_LEN,
                ({
                    let (more, rest) = fed(self.buf@, bytes@.skip(i as int), delim);
                    byte_seqs(frames@) + more == want.0 && rest == want.1
                }),
            decreases bytes@.len() - i,
        {
            let ghost before = byte_seqs(frames@);
            let ghost partial = self.buf@;
            let b: u8 = bytes[i];
            if self.buf.len() >= MAX_RADIO_FRAME_LEN {
                self.buf.clear();
            }
            self.buf.push(b);
            proof {
                assert(bytes@.skip(i as int)[0] == b);
                assert(bytes@.skip(i as int).skip(1) =~= bytes@.skip(i + 1));
            }
            if b == self.delim {
                let mut frame: Vec<u8> = Vec::new();
                std::mem::swap(&mut self.buf, &mut frame);
                frames.push(frame);
                proof {
                    let (more, rest) = fed(Seq::empty(), bytes@.skip(i + 1), delim);
                    assert(self.buf@ =~= Seq::<u8>::empty());
                    assert(byte_seqs(frames@) =~= before.push(frame@));
                    assert(byte_seqs(frames@) + more =~= before + (seq![frame@] + more));
                }
            }
            i = i + 1;
        }
        proof {
            assert(bytes@.skip(i as int) =~= Seq::<u8>::empty());
            assert(byte_seqs(frames@) + Seq::<Seq<u8>>::empty() =~= byte_seqs(frames@));
        }
        frames
    }
}

/// Two chunks give what they give as one.
proof fn lemma_two_chunks(partial: Seq<u8>, first: Seq<u8>, second: Seq<u8>, delim: u8)
    ensures
        ({
            let (frames1, rest1) = fed(partial, first, delim);
            let (frames2, rest2) = fed(rest1, second, delim);
            fed(partial, first + second, delim) == (frames1 + frames2, rest2)
        }),
    decreases first.len(),
{
    if first.len() == 0 {
        assert(first + second =~= second);
        assert(Seq::<Seq<u8>>::empty() + fed(partial, second, delim).0 =~= fed(
            partial,
            second,
            delim,
        ).0);
    } else {
        let kept = if partial.len() >= MAX_RADIO_FRAME_LEN {
            Seq::empty()
        } else {
            partial
        };
        let grown = kept.push(first[0]);
        assert((first + second).skip(1) =~= first.skip(1) + second);
        if first[0] == delim {
            lemma_two_chunks(Seq::empty(), first.skip(1), second, delim);
            let (f1, r1) = fed(Seq::empty(), first.skip(1), delim);
            let (f2, r2) = fed(r1, second, delim);
            assert(seq![grown] + (f1 + f2) =~= (seq![grown] + f1) + f2);
        } else {
            lemma_two_chunks(grown, first.skip(1), second, delim);
        }
    }
}

/// What chunks give that are fed one after the other.
pub open spec fn fed_chunks(partial: Seq<u8>, chunks: Seq<Seq<u8>>, delim: u8) -> (
    Seq<Seq<u8>>,
    Seq<u8>,
)
    decreases chunks.len(),
{
    if chunks.len() == 0 {
        (Seq::empty(), partial)
    } else {
        let (frames, left) = fed(partial, chunks[0], delim);
        let (more, rest) = fed_chunks(left, chunks.skip(1), delim);
        (frames + more, rest)
    }
}

/// Frames do not depend on how the stream is cut into chunks, however many there are.
pub proof fn law_chunks_do_not_matter(partial: Seq<u8>, chunks: Seq<Seq<u8>>, delim: u8)
    ensures
        fed_chunks(partial, chunks, delim) == fed(partial, joined(chunks), delim),
    decreases chunks.len(),
{
    if chunks.len() > 0 {
        let (_, left) = fed(partial, chunks[0], delim);
        law_chunks_do_not_matter(left, chunks.skip(1), delim);
        lemma_two_chunks(partial, chunks[0], joined(chunks.skip(1)), delim);
    }
}

/// Every frame ends with the delimiter, holds it nowhere else and is of bounded size, and
/// the partial frame that is left holds no delimiter.
pub proof fn law_frames_are_delimited(partial: Seq<u8>, bytes: Seq<u8>, delim: u8)
    requires
        partial.len() <= MAX_RADIO_FRAME_LEN,
        !partial.contains(delim),
    ensures
        ({
            let (frames, rest) = fed(partial, bytes, delim);
            &&& rest.len() <= MAX_RADIO_FRAME_LEN
            &&& !rest.contains(delim)
            &&& forall|i: int|
                0 <= i < frames.len() ==> {
                    &&& 0 < (#[trigger] frames[i]).len() <= MAX_RADIO_FRAME_LEN
                    &&& frames[i].last() == delim
                    &&& !frames[i].drop_last().contains(delim)
                }
        }),
    decreases bytes.len(),
{
    if bytes.len() > 0 {
        let kept = if partial.len() >= MAX_RADIO_FRAME_LEN {
            Seq::empty()
        } else {
            partial
        };
        let grown = kept.push(bytes[0]);
        assert(grown.drop_last() =~= kept);
        if bytes[0] == delim {
            law_frames_are_delimited(Seq::empty(), bytes.skip(1), delim);
            let (more, rest) = fed(Seq::empty(), bytes.skip(1), delim);
            let (frames, _) = fed(partial, bytes, delim);
            assert forall|i: int| 0 <= i < frames.len() implies {
                &&& 0 < (#[trigger] frames[i]).len() <= MAX_RADIO_FRAME_LEN
                &&& frames[i].last() == delim
                &&& !frames[i].drop_last().contains(delim)
            } by {
                if i > 0 {
                    assert(frames[i] == more[i - 1]);
                }
            }
        } else {
            assert(!grown.contains(delim)) by {
                if grown.contains(delim) {
                    let j = grown.index_of(delim);
                    if j < kept.len() {
                        assert(kept[j] == delim);
                    }
                }
            }
            law_frames_are_delimited(grown, bytes.skip(1), delim);
        }
    }
}

/// The bytes of frames one after the other.
pub open spec fn joined(frames: Seq<Seq<u8>>) -> Seq<u8>
    decreases frames.len(),
{
    if frames.len() == 0 {
        Seq::empty()
    } else {
        frames[0] + joined(frames.skip(1))
    }
}

/// Whether a delimiter comes in time everywhere: among any so many bytes as a partial frame
/// may hold, where more follow, there is a delimiter.
pub open spec fn delimited_in_time(bytes: Seq<u8>, delim: u8) -> bool {
    forall|i: int|
        0 <= i && i + MAX_RADIO_FRAME_LEN < bytes.len() ==> (#[trigger] bytes.subrange(
            i,
            i + MAX_RADIO_FRAME_LEN,
        )).contains(delim)
}

/// As long as no partial frame can outgrow its bound, no byte is lost: the frames and the
/// partial frame that is left are what came in, however much that is.
pub proof fn law_no_byte_is_lost(partial: Seq<u8>, bytes: Seq<u8>, delim: u8)
    requires
        !partial.contains(delim),
        delimited_in_time(partial + bytes, delim),
    ensures
        joined(fed(partial, bytes, delim).0) + fed(partial, bytes, delim).1 == partial + bytes,
    decreases bytes.len(),
{
    if bytes.len() == 0 {
        assert(Seq::<u8>::empty() + partial =~= partial + bytes);
    } else {
        let all = partial + bytes;
        let grown = partial.push(bytes[0]);
        if partial.len() >= MAX_RADIO_FRAME_LEN {
            let window = all.subrange(0, 0 + MAX_RADIO_FRAME_LEN);
            let j = window.index_of(delim);
            assert(window.contains(delim));
            assert(partial[j] == delim);
        }
        if bytes[0] == delim {
            let later = bytes.skip(1);
            let first = grown.len();
            assert(Seq::<u8>::empty() + later =~= later);
            assert forall|i: int| 0 <= i && i + MAX_RADIO_FRAME_LEN < later.len() implies (
            #[trigger] later.subrange(i, i + MAX_RADIO_FRAME_LEN)).contains(delim) by {
                assert(later.subrange(i, i + MAX_RADIO_FRAME_LEN) =~= all.subrange(
                    i + first,
                    i + first + MAX_RADIO_FRAME_LEN,
                ));
            }
            law_no_byte_is_lost(Seq::empty(), later, delim);
            let (more, rest) = fed(Seq::empty(), later, delim);
            assert((seq![grown] + more).skip(1) =~= more);
            assert(grown + joined(more) + rest =~= all) by {
                assert(joined(more) + rest =~= later);
                assert(grown + joined(more) + rest =~= grown + (joined(more) + rest));
                assert(grown + later =~= all);
            }
        } else {
            assert(grown + bytes.skip(1) =~= all);
            assert(!grown.contains(delim)) by {
                if grown.contains(delim) {
                    let j = grown.index_of(delim);
                    if j < partial.len() {
                        assert(partial[j] == delim);
                    }
                }
            }
            law_no_byte_is_lost(grown, bytes.skip(1), delim);
        }
    }
}

} // verus!
