//! The frame decoder: a resynchronising scan over a byte stream that arrives
//! in arbitrary pieces.

use crate::frame::{
    is_frame, sample_at, sample_values, DecodedSample, END_MARKER, FRAME_LEN, START_MARKER_A,
    START_MARKER_B,
};
use vstd::prelude::*;

verus! {

/// The sixteen bytes of `stream` that start at offset `at`.
pub open spec fn window(stream: Seq<u8>, at: int) -> Seq<u8>
    recommends
        0 <= at,
        at + FRAME_LEN <= stream.len(),
{
    stream.subrange(at, at + FRAME_LEN)
}

/// A frame lies in `stream` at offset `at`.
pub open spec fn frame_at(stream: Seq<u8>, at: int) -> bool {
    &&& 0 <= at
    &&& at + FRAME_LEN <= stream.len()
    &&& is_frame(window(stream, at))
}

/// The offsets of the frames that a scan of `stream` decodes when it starts
/// at offset `from`: a frame found at the scan position is taken whole, and
/// any other position is passed over by one byte.
pub open spec fn frame_offsets(stream: Seq<u8>, from: int) -> Seq<int>
    decreases stream.len() - from,
{
    if from < 0 || from + FRAME_LEN > stream.len() {
        Seq::empty()
    } else if frame_at(stream, from) {
        seq![from] + frame_offsets(stream, from + FRAME_LEN)
    } else {
        frame_offsets(stream, from + 1)
    }
}

/// The offset at which a scan of `stream` that starts at `from` comes to
/// rest, fewer than sixteen bytes before the end.
pub open spec fn scan_end(stream: Seq<u8>, from: int) -> int
    decreases stream.len() - from,
{
    if from < 0 || from + FRAME_LEN > stream.len() {
        from
    } else if frame_at(stream, from) {
        scan_end(stream, from + FRAME_LEN)
    } else {
        scan_end(stream, from + 1)
    }
}

/// The samples decoded from `stream`, in stream order.
pub open spec fn decoded_samples(stream: Seq<u8>) -> Seq<Seq<i16>> {
    frame_offsets(stream, 0).map_values(|at: int| sample_values(window(stream, at)))
}

/// The bytes of `stream` that a scan leaves for the bytes to come.
pub open spec fn undecoded_tail(stream: Seq<u8>) -> Seq<u8> {
    stream.skip(scan_end(stream, 0))
}

/// The values of each sample of a list.
pub open spec fn sample_views(samples: Seq<DecodedSample>) -> Seq<Seq<i16>> {
    samples.map_values(|s: DecodedSample| s@)
}

/// A scan comes to rest at or after its start, within the stream, and with
/// fewer than sixteen bytes left where the start left at least that many.
pub proof fn lemma_scan_end_bounds(stream: Seq<u8>, from: int)
    requires
        0 <= from <= stream.len(),
    ensures
        from <= scan_end(stream, from) <= stream.len(),
        stream.len() - scan_end(stream, from) < FRAME_LEN || scan_end(stream, from) == from,
        from + FRAME_LEN <= stream.len() ==> stream.len() - scan_end(stream, from) < FRAME_LEN,
    decreases stream.len() - from,
{
    if from + FRAME_LEN > stream.len() {
    } else if frame_at(stream, from) {
        lemma_scan_end_bounds(stream, from + FRAME_LEN);
    } else {
        lemma_scan_end_bounds(stream, from + 1);
    }
}

/// Stateful decoder. It keeps the bytes that no frame has claimed yet, always
/// fewer than a frame's worth between calls.
pub struct FrameDecoder {
    buffer: Vec<u8>,
}

impl View for FrameDecoder {
    type V = Seq<u8>;

    /// The bytes received and not yet decoded or passed over.
    closed spec fn view(&self) -> Seq<u8> {
        self.buffer@
    }
}

impl FrameDecoder {
    #[verifier::type_invariant]
    spec fn bounded(&self) -> bool {
        self.buffer@.len() < FRAME_LEN
    }

    /// A decoder that has received nothing.
    pub fn new() -> (decoder: Self)
        ensures
            decoder@ == Seq::<u8>::empty(),
    {
        FrameDecoder { buffer: Vec::new() }
    }

    /// Number of bytes held back for the next call.
    pub fn pending_len(&self) -> (n: usize)
        ensures
            n == self@.len(),
            n < FRAME_LEN,
    {
        proof {
            use_type_invariant(self);
        }
        self.buffer.len()
    }

    /// Forgets the bytes held back, as on a new connection.
    pub fn reset(&mut self)
        ensures
            final(self)@ == Seq::<u8>::empty(),
    {
        self.buffer = Vec::new();
    }

    /// Appends `bytes` to the bytes held back and scans the whole: returns the
    /// samples of the frames found, in stream order, and keeps the rest.
    pub fn feed(&mut self, bytes: &[u8]) -> (samples: Vec<DecodedSample>)
        ensures
            sample_views(samples@) == decoded_samples(old(self)@ + bytes@),
            final(self)@ == undecoded_tail(old(self)@ + bytes@),
            final(self)@.len() < FRAME_LEN,
    {
        let mut stream: Vec<u8> = Vec::new();
        stream.extend_from_slice(self.buffer.as_slice());
        stream.extend_from_slice(bytes);
        assert(stream@ =~= old(self)@ + bytes@);
        let total = stream.len();
        let mut samples: Vec<DecodedSample> = Vec::new();
        let mut pos: usize = 0;
        while total - pos >= FRAME_LEN
            invariant
                pos <= total,
                total == stream@.len(),
                sample_views(samples@) + frame_offsets(stream@, pos as int).map_values(
                    |at: int| sample_values(window(stream@, at)),
                ) == decoded_samples(stream@),
                scan_end(stream@, pos as int) == scan_end(stream@, 0),
            decreases total - pos,
        {
            let ghost rest = frame_offsets(stream@, pos as int);
            let ghost decode = |at: int| sample_values(window(stream@, at));
            if stream[pos] == START_MARKER_A && stream[pos + 1] == START_MARKER_B && stream[pos
                + FRAME_LEN - 1] == END_MARKER {
                let sample = sample_at(stream.as_slice(), pos);
                proof {
                    let next = frame_offsets(stream@, pos + FRAME_LEN);
                    assert(frame_at(stream@, pos as int));
                    assert(rest == seq![pos as int] + next);
                    assert(rest.map_values(decode) =~= seq![sample@] + next.map_values(decode));
                    assert(sample_views(samples@.push(sample)) =~= sample_views(samples@)
                        + seq![sample@]);
                }
                samples.push(sample);
                pos += FRAME_LEN;
            } else {
                assert(!frame_at(stream@, pos as int));
                pos += 1;
            }
        }
        proof {
            assert(frame_offsets(stream@, pos as int) =~= Seq::<int>::empty());
            assert(sample_views(samples@) =~= decoded_samples(stream@));
            lemma_scan_end_bounds(stream@, 0);
        }
        self.buffer = stream.split_off(pos);
        samples
    }
}

} // verus!
