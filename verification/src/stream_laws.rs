//! What holds of every scan: where its samples come from, how it gets back
//! into step after bytes that are no frame, and that a stream may arrive in
//! pieces of any size.

use crate::decoder::{
    decoded_samples, frame_at, frame_offsets, scan_end, undecoded_tail, window,
};
use crate::frame::{
    frame_bytes, is_frame, lemma_decode_inverts_encode, sample_values, CHANNEL_COUNT, END_MARKER,
    FRAME_LEN, START_MARKER_A, START_MARKER_B,
};
use vstd::prelude::*;

verus! {

/// The two start markers stand at offset `at` of `stream`.
pub open spec fn marker_pair_at(stream: Seq<u8>, at: int) -> bool {
    &&& 0 <= at
    &&& at + 1 < stream.len()
    &&& stream[at] == START_MARKER_A
    &&& stream[at + 1] == START_MARKER_B
}

/// One of the frames that begin at the `chosen` offsets covers offset `at`.
pub open spec fn covered_by(chosen: Seq<int>, at: int) -> bool {
    exists|k: int| 0 <= k < chosen.len() && #[trigger] chosen[k] <= at < chosen[k] + FRAME_LEN
}

/// The offsets that a scan finds lie at or after its start, each holds a
/// frame, and each frame ends before the next begins.
pub proof fn lemma_offsets_are_frames(stream: Seq<u8>, from: int)
    requires
        0 <= from,
    ensures
        forall|k: int|
            0 <= k < frame_offsets(stream, from).len() ==> from <= #[trigger] frame_offsets(
                stream,
                from,
            )[k] && frame_at(stream, frame_offsets(stream, from)[k]),
        forall|i: int, j: int|
            0 <= i < j < frame_offsets(stream, from).len() ==> #[trigger] frame_offsets(
                stream,
                from,
            )[i] + FRAME_LEN <= #[trigger] frame_offsets(stream, from)[j],
    decreases stream.len() - from,
{
    let found = frame_offsets(stream, from);
    if from + FRAME_LEN > stream.len() {
        assert(found.len() == 0);
    } else if frame_at(stream, from) {
        let later = frame_offsets(stream, from + FRAME_LEN);
        lemma_offsets_are_frames(stream, from + FRAME_LEN);
        assert(found == seq![from] + later);
        assert forall|k: int| 0 <= k < found.len() implies from <= #[trigger] found[k] && frame_at(
            stream,
            found[k],
        ) by {
            if k > 0 {
                assert(found[k] == later[k - 1]);
            }
        }
        assert forall|i: int, j: int| 0 <= i < j < found.len() implies #[trigger] found[i]
            + FRAME_LEN <= #[trigger] found[j] by {
            assert(found[j] == later[j - 1]);
            if i > 0 {
                assert(found[i] == later[i - 1]);
            }
        }
    } else {
        lemma_offsets_are_frames(stream, from + 1);
        assert(found == frame_offsets(stream, from + 1));
    }
}

/// Every sample decoded from a stream is the decoding of sixteen consecutive
/// bytes of that stream which satisfy all marker constraints, and the ranges
/// of successive samples follow one another without overlap.
pub proof fn lemma_samples_come_from_frames(stream: Seq<u8>)
    ensures
        decoded_samples(stream).len() == frame_offsets(stream, 0).len(),
        forall|k: int|
            #![trigger decoded_samples(stream)[k]]
            0 <= k < decoded_samples(stream).len() ==> {
                let at = frame_offsets(stream, 0)[k];
                &&& 0 <= at
                &&& at + FRAME_LEN <= stream.len()
                &&& is_frame(stream.subrange(at, at + FRAME_LEN))
                &&& decoded_samples(stream)[k] == sample_values(
                    stream.subrange(at, at + FRAME_LEN),
                )
            },
        forall|i: int, j: int|
            0 <= i < j < frame_offsets(stream, 0).len() ==> #[trigger] frame_offsets(stream, 0)[i]
                + FRAME_LEN <= #[trigger] frame_offsets(stream, 0)[j],
{
    lemma_offsets_are_frames(stream, 0);
}

/// The scan is greedy: a frame of the stream at or after the scan's start is
/// decoded, unless a decoded frame that begins before it covers its start.
pub proof fn lemma_frames_found_or_covered(stream: Seq<u8>, from: int, at: int)
    requires
        0 <= from <= at,
        frame_at(stream, at),
    ensures
        covered_by(frame_offsets(stream, from), at),
    decreases stream.len() - from,
{
    let found = frame_offsets(stream, from);
    if frame_at(stream, from) {
        let later = frame_offsets(stream, from + FRAME_LEN);
        assert(found == seq![from] + later);
        if at < from + FRAME_LEN {
            assert(found[0] == from);
        } else {
            lemma_frames_found_or_covered(stream, from + FRAME_LEN, at);
            let k = choose|k: int|
                0 <= k < later.len() && #[trigger] later[k] <= at < later[k] + FRAME_LEN;
            assert(found[k + 1] == later[k]);
        }
    } else {
        lemma_frames_found_or_covered(stream, from + 1, at);
    }
}

/// The scan's offsets are the only choice of frames, at or after the start
/// and none overlapping another, such that every frame of the stream at or
/// after the start begins inside a chosen one.
pub proof fn lemma_offsets_are_unique(stream: Seq<u8>, from: int, chosen: Seq<int>)
    requires
        0 <= from,
        forall|k: int|
            0 <= k < chosen.len() ==> from <= #[trigger] chosen[k] && frame_at(stream, chosen[k]),
        forall|i: int, j: int|
            0 <= i < j < chosen.len() ==> #[trigger] chosen[i] + FRAME_LEN <= #[trigger] chosen[j],
        forall|at: int| from <= at && frame_at(stream, at) ==> #[trigger] covered_by(chosen, at),
    ensures
        chosen == frame_offsets(stream, from),
    decreases stream.len() - from,
{
    if from + FRAME_LEN > stream.len() {
        if chosen.len() > 0 {
            assert(frame_at(stream, chosen[0]));
        }
        assert(chosen =~= frame_offsets(stream, from));
    } else if frame_at(stream, from) {
        assert(covered_by(chosen, from));
        let first = choose|k: int|
            0 <= k < chosen.len() && #[trigger] chosen[k] <= from < chosen[k] + FRAME_LEN;
        if first > 0 {
            assert(chosen[0] + FRAME_LEN <= chosen[first]);
        }
        assert(first == 0 && chosen[0] == from);
        let later = chosen.skip(1);
        assert forall|k: int| 0 <= k < later.len() implies from + FRAME_LEN
            <= #[trigger] later[k] && frame_at(stream, later[k]) by {
            assert(later[k] == chosen[k + 1]);
            assert(chosen[0] + FRAME_LEN <= chosen[k + 1]);
        }
        assert forall|i: int, j: int| 0 <= i < j < later.len() implies #[trigger] later[i]
            + FRAME_LEN <= #[trigger] later[j] by {
            assert(later[i] == chosen[i + 1]);
            assert(later[j] == chosen[j + 1]);
        }
        assert forall|at: int| from + FRAME_LEN <= at && frame_at(
            stream,
            at,
        ) implies #[trigger] covered_by(later, at) by {
            assert(covered_by(chosen, at));
            let k = choose|k: int|
                0 <= k < chosen.len() && #[trigger] chosen[k] <= at < chosen[k] + FRAME_LEN;
            assert(k > 0);
            assert(later[k - 1] == chosen[k]);
        }
        lemma_offsets_are_unique(stream, from + FRAME_LEN, later);
        assert(chosen =~= seq![from] + later);
    } else {
        assert forall|k: int| 0 <= k < chosen.len() implies from + 1 <= #[trigger] chosen[k] by {
            assert(frame_at(stream, chosen[k]));
        }
        assert forall|at: int| from + 1 <= at && frame_at(
            stream,
            at,
        ) implies #[trigger] covered_by(chosen, at) by {
            assert(from <= at);
        }
        lemma_offsets_are_unique(stream, from + 1, chosen);
    }
}

/// Resynchronisation: a scan that meets no frame between `from` and `to`
/// passes over those bytes one at a time and goes on from `to`.
pub proof fn lemma_scan_passes_over(stream: Seq<u8>, from: int, to: int)
    requires
        0 <= from <= to,
        to + FRAME_LEN - 1 <= stream.len(),
        forall|at: int| from <= at < to ==> !frame_at(stream, at),
    ensures
        frame_offsets(stream, from) == frame_offsets(stream, to),
        scan_end(stream, from) == scan_end(stream, to),
    decreases to - from,
{
    if from < to {
        assert(!frame_at(stream, from));
        lemma_scan_passes_over(stream, from + 1, to);
    }
}

/// A false start: where the two start markers stand at the scan position but
/// the byte at the end marker's place is another, the scan advances by exactly
/// one byte and resumes there.
pub proof fn lemma_false_start_advances_one(stream: Seq<u8>, from: int)
    requires
        0 <= from,
        from + FRAME_LEN <= stream.len(),
        marker_pair_at(stream, from),
        stream[from + FRAME_LEN - 1] != END_MARKER,
    ensures
        frame_offsets(stream, from) == frame_offsets(stream, from + 1),
        scan_end(stream, from) == scan_end(stream, from + 1),
{
    assert(window(stream, from)[15] == stream[from + 15]);
}

/// Every step of a scan consumes input: from a position with a frame's
/// worth of bytes ahead, the scan goes on from a later position, one byte
/// later where no frame stands and sixteen where one does.
pub proof fn lemma_scan_step_consumes(stream: Seq<u8>, from: int)
    requires
        0 <= from,
        from + FRAME_LEN <= stream.len(),
    ensures
        frame_at(stream, from) ==> scan_end(stream, from) == scan_end(stream, from + FRAME_LEN)
            && frame_offsets(stream, from) == seq![from] + frame_offsets(
            stream,
            from + FRAME_LEN,
        ),
        !frame_at(stream, from) ==> scan_end(stream, from) == scan_end(stream, from + 1)
            && frame_offsets(stream, from) == frame_offsets(stream, from + 1),
        scan_end(stream, from) > from,
{
    crate::decoder::lemma_scan_end_bounds(stream, from);
}

/// Bytes in front of a frame among which the start-marker pair never stands
/// are dropped one by one, as many drops as there are such bytes; the frame
/// behind them is then decoded, alone and correctly, and nothing is left.
pub proof fn lemma_resync_before_frame(prefix: Seq<u8>, frame: Seq<u8>)
    requires
        is_frame(frame),
        forall|at: int| 0 <= at < prefix.len() ==> !marker_pair_at(prefix + frame, at),
    ensures
        frame_offsets(prefix + frame, 0) == seq![prefix.len() as int],
        decoded_samples(prefix + frame) == seq![sample_values(frame)],
        undecoded_tail(prefix + frame) == Seq::<u8>::empty(),
{
    let stream = prefix + frame;
    let at = prefix.len() as int;
    assert forall|j: int| 0 <= j < at implies !frame_at(stream, j) by {
        if frame_at(stream, j) {
            assert(window(stream, j)[0] == stream[j]);
            assert(window(stream, j)[1] == stream[j + 1]);
            assert(marker_pair_at(stream, j));
        }
    }
    lemma_scan_passes_over(stream, 0, at);
    assert(window(stream, at) =~= frame);
    assert(frame_at(stream, at));
    assert(frame_offsets(stream, at + FRAME_LEN) =~= Seq::<int>::empty());
    assert(frame_offsets(stream, at) =~= seq![at]);
    assert(scan_end(stream, at + FRAME_LEN) == at + FRAME_LEN);
    assert(scan_end(stream, at) == at + FRAME_LEN);
    assert(decoded_samples(stream) =~= seq![sample_values(frame)]);
    assert(undecoded_tail(stream) =~= Seq::<u8>::empty());
}

/// Round trip through the decoder: the frame built from six channel values
/// and a counter decodes to exactly one sample, those six values followed by
/// the counter, and nothing is left.
pub proof fn lemma_round_trip(channels: Seq<i16>, counter: u8)
    requires
        channels.len() == CHANNEL_COUNT,
    ensures
        decoded_samples(frame_bytes(channels, counter)) == seq![channels.push(counter as i16)],
        undecoded_tail(frame_bytes(channels, counter)) == Seq::<u8>::empty(),
{
    let frame = frame_bytes(channels, counter);
    lemma_decode_inverts_encode(channels, counter);
    lemma_resync_before_frame(Seq::<u8>::empty(), frame);
    assert(Seq::<u8>::empty() + frame =~= frame);
}

/// Two frames, one behind the other, decode to two samples in that order,
/// and nothing is left.
pub proof fn lemma_two_frames_in_order(first: Seq<u8>, second: Seq<u8>)
    requires
        is_frame(first),
        is_frame(second),
    ensures
        frame_offsets(first + second, 0) == seq![0int, FRAME_LEN as int],
        decoded_samples(first + second) == seq![sample_values(first), sample_values(second)],
        undecoded_tail(first + second) == Seq::<u8>::empty(),
{
    let stream = first + second;
    assert(window(stream, 0) =~= first);
    assert(window(stream, FRAME_LEN as int) =~= second);
    assert(frame_at(stream, 0));
    assert(frame_at(stream, FRAME_LEN as int));
    assert(frame_offsets(stream, 2 * FRAME_LEN) =~= Seq::<int>::empty());
    assert(frame_offsets(stream, FRAME_LEN as int) =~= seq![FRAME_LEN as int]);
    assert(frame_offsets(stream, 0) =~= seq![0int, FRAME_LEN as int]);
    assert(scan_end(stream, 2 * FRAME_LEN) == 2 * FRAME_LEN);
    assert(scan_end(stream, FRAME_LEN as int) == 2 * FRAME_LEN);
    assert(scan_end(stream, 0) == 2 * FRAME_LEN);
    assert(decoded_samples(stream) =~= seq![sample_values(first), sample_values(second)]);
    assert(undecoded_tail(stream) =~= Seq::<u8>::empty());
}

/// While a scan still has a frame's worth of `head` ahead, bytes that follow
/// `head` do not change its course: it finds the same frames, and goes on
/// into the longer stream from where it came to rest in `head`.
pub proof fn lemma_scan_of_head(head: Seq<u8>, rest: Seq<u8>, from: int)
    requires
        0 <= from <= head.len(),
    ensures
        frame_offsets(head + rest, from) == frame_offsets(head, from) + frame_offsets(
            head + rest,
            scan_end(head, from),
        ),
        scan_end(head + rest, from) == scan_end(head + rest, scan_end(head, from)),
    decreases head.len() - from,
{
    let stream = head + rest;
    if from + FRAME_LEN > head.len() {
        assert(frame_offsets(head, from) + frame_offsets(stream, from) =~= frame_offsets(
            stream,
            from,
        ));
    } else {
        assert(window(stream, from) =~= window(head, from));
        if frame_at(head, from) {
            lemma_scan_of_head(head, rest, from + FRAME_LEN);
            assert(frame_offsets(stream, from) =~= frame_offsets(head, from) + frame_offsets(
                stream,
                scan_end(head, from),
            ));
        } else {
            lemma_scan_of_head(head, rest, from + 1);
        }
    }
}

/// A scan does not depend on the bytes before its start: on the stream
/// without its first `drop` bytes it finds the same frames, each `drop`
/// bytes earlier.
pub proof fn lemma_scan_shift(stream: Seq<u8>, drop: int, from: int)
    requires
        0 <= drop <= from,
        drop <= stream.len(),
    ensures
        frame_offsets(stream, from) == frame_offsets(stream.skip(drop), from - drop).map_values(
            |at: int| at + drop,
        ),
        scan_end(stream, from) == scan_end(stream.skip(drop), from - drop) + drop,
    decreases stream.len() - from,
{
    let later = stream.skip(drop);
    let shift = |at: int| at + drop;
    if from + FRAME_LEN > stream.len() {
        assert(frame_offsets(stream, from) =~= frame_offsets(later, from - drop).map_values(
            shift,
        ));
    } else {
        assert(window(stream, from) =~= window(later, from - drop));
        if frame_at(stream, from) {
            lemma_scan_shift(stream, drop, from + FRAME_LEN);
            assert(frame_offsets(later, from - drop) == seq![from - drop] + frame_offsets(
                later,
                from - drop + FRAME_LEN,
            ));
            assert(frame_offsets(stream, from) =~= frame_offsets(later, from - drop).map_values(
                shift,
            ));
        } else {
            lemma_scan_shift(stream, drop, from + 1);
        }
    }
}

/// A stream may arrive in pieces: decoding `head`, and then what `head` left
/// over followed by `rest`, gives the samples and the leftover of decoding
/// `head` followed by `rest` at once.
pub proof fn lemma_decoding_in_pieces(head: Seq<u8>, rest: Seq<u8>)
    ensures
        decoded_samples(head + rest) == decoded_samples(head) + decoded_samples(
            undecoded_tail(head) + rest,
        ),
        undecoded_tail(head + rest) == undecoded_tail(undecoded_tail(head) + rest),
{
    let stream = head + rest;
    let stop = scan_end(head, 0);
    let carried = undecoded_tail(head) + rest;
    crate::decoder::lemma_scan_end_bounds(head, 0);
    lemma_scan_of_head(head, rest, 0);
    lemma_scan_shift(stream, stop, stop);
    lemma_offsets_are_frames(head, 0);
    assert(stream.skip(stop) =~= carried);
    let early = frame_offsets(head, 0);
    let late = frame_offsets(carried, 0);
    let moved = late.map_values(|at: int| at + stop);
    assert(frame_offsets(stream, 0) == early + moved);
    assert forall|k: int| 0 <= k < early.len() implies window(stream, early[k]) == window(
        head,
        early[k],
    ) by {
        assert(frame_at(head, early[k]));
        assert(window(stream, early[k]) =~= window(head, early[k]));
    }
    lemma_offsets_are_frames(carried, 0);
    assert forall|k: int| 0 <= k < late.len() implies window(stream, moved[k]) == window(
        carried,
        late[k],
    ) by {
        assert(frame_at(carried, late[k]));
        assert(window(stream, late[k] + stop) =~= window(carried, late[k]));
    }
    assert(decoded_samples(stream) =~= decoded_samples(head) + decoded_samples(carried));
    crate::decoder::lemma_scan_end_bounds(carried, 0);
    assert(stream.skip(stop + scan_end(carried, 0)) =~= carried.skip(scan_end(carried, 0)));
}

} // verus!
