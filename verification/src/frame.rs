//! The 16-byte telemetry frame: its layout, validity, decoding and encoding.

use vstd::prelude::*;

verus! {

/// Number of bytes in one frame.
pub const FRAME_LEN: usize = 16;

/// First byte of every frame.
pub const START_MARKER_A: u8 = 0xC7;

/// Second byte of every frame.
pub const START_MARKER_B: u8 = 0x7C;

/// Last byte of every frame.
pub const END_MARKER: u8 = 0x01;

/// Number of channel values carried by one frame.
pub const CHANNEL_COUNT: usize = 6;

/// Number of values in a decoded sample: the channels, then the counter.
pub const SAMPLE_LEN: usize = 7;

/// The signed 16-bit value that a big-endian byte pair stands for in two's
/// complement.
pub open spec fn channel_value(high: u8, low: u8) -> i16 {
    let raw = high as int * 256 + low as int;
    if raw >= 0x8000 {
        (raw - 0x1_0000) as i16
    } else {
        raw as i16
    }
}

/// The high byte of the two's complement pattern of `value`.
pub open spec fn high_byte(value: i16) -> u8 {
    let raw = if value < 0 {
        value + 0x1_0000
    } else {
        value as int
    };
    (raw / 256) as u8
}

/// The low byte of the two's complement pattern of `value`.
pub open spec fn low_byte(value: i16) -> u8 {
    let raw = if value < 0 {
        value + 0x1_0000
    } else {
        value as int
    };
    (raw % 256) as u8
}

/// A byte range is a frame exactly when it has the frame's length and the
/// three marker positions hold the three marker bytes.
pub open spec fn is_frame(bytes: Seq<u8>) -> bool {
    &&& bytes.len() == FRAME_LEN
    &&& bytes[0] == START_MARKER_A
    &&& bytes[1] == START_MARKER_B
    &&& bytes[15] == END_MARKER
}

/// The seven values that a frame carries: channel `k` from the byte pair at
/// offsets `3 + 2k` and `4 + 2k`, then the counter byte at offset 2.
pub open spec fn sample_values(frame: Seq<u8>) -> Seq<i16>
    recommends
        frame.len() == FRAME_LEN,
{
    Seq::new(
        SAMPLE_LEN as nat,
        |k: int|
            if k < CHANNEL_COUNT {
                channel_value(frame[3 + 2 * k], frame[4 + 2 * k])
            } else {
                frame[2] as i16
            },
    )
}

/// The frame that carries the six `channels` and `counter`.
pub open spec fn frame_bytes(channels: Seq<i16>, counter: u8) -> Seq<u8>
    recommends
        channels.len() == CHANNEL_COUNT,
{
    Seq::new(
        FRAME_LEN as nat,
        |i: int|
            if i == 0 {
                START_MARKER_A
            } else if i == 1 {
                START_MARKER_B
            } else if i == 2 {
                counter
            } else if i == 15 {
                END_MARKER
            } else if (i - 3) % 2 == 0 {
                high_byte(channels[(i - 3) / 2])
            } else {
                low_byte(channels[(i - 3) / 2])
            },
    )
}

/// One decoded frame: six channel values in wire order, then the counter.
#[derive(Clone, Copy, Debug, PartialEq, Eq)]
pub struct DecodedSample {
    pub values: [i16; 7],
}

impl View for DecodedSample {
    type V = Seq<i16>;

    open spec fn view(&self) -> Seq<i16> {
        self.values@
    }
}

impl DecodedSample {
    /// The counter, the last of the seven values: between 0 and 255 in a
    /// sample that was decoded from a frame.
    pub fn counter(&self) -> (counter: i16)
        ensures
            counter == self@[6],
    {
        self.values[CHANNEL_COUNT]
    }

    /// The channel value at `index`, if there is one.
    pub fn channel(&self, index: usize) -> (value: Option<i16>)
        ensures
            value == if index < CHANNEL_COUNT {
                Some(self@[index as int])
            } else {
                None
            },
    {
        if index < CHANNEL_COUNT {
            Some(self.values[index])
        } else {
            None
        }
    }

    /// The seven values as a list, as handed to the consumer.
    pub fn to_vec(&self) -> (values: Vec<i16>)
        ensures
            values@ == self@,
    {
        let mut values: Vec<i16> = Vec::new();
        let mut k: usize = 0;
        while k < SAMPLE_LEN
            invariant
                k <= SAMPLE_LEN,
                values@ == self@.take(k as int),
            decreases SAMPLE_LEN - k,
        {
            values.push(self.values[k]);
            assert(self@.take(k + 1) =~= self@.take(k as int).push(self@[k as int]));
            k += 1;
        }
        assert(self@.take(SAMPLE_LEN as int) =~= self@);
        values
    }
}

/// Combines a big-endian byte pair into the signed 16-bit value it encodes.
/// The bytes are widened to 32 bits before the shift, and the result is the
/// low 16 bits of the combination, read as two's complement.
pub fn combine_bytes(high: u8, low: u8) -> (value: i16)
    ensures
        value == channel_value(high, low),
{
    let wide: u32 = ((high as u32) << 8) | (low as u32);
    assert(wide == high as u32 * 256 + low as u32) by (bit_vector)
        requires
            wide == ((high as u32) << 8) | (low as u32),
    ;
    let narrow: u16 = wide as u16;
    let value: i16 = #[verifier::truncate] (narrow as i16);
    assert(value as int == if narrow >= 0x8000 {
        narrow as int - 0x1_0000
    } else {
        narrow as int
    }) by (bit_vector)
        requires
            value == narrow as i16,
    ;
    value
}

/// Splits a signed 16-bit value into the big-endian byte pair of its two's
/// complement pattern.
pub fn split_value(value: i16) -> (pair: (u8, u8))
    ensures
        pair.0 == high_byte(value),
        pair.1 == low_byte(value),
{
    let raw: u16 = #[verifier::truncate] (value as u16);
    assert(raw as int == if value < 0 {
        value as int + 0x1_0000
    } else {
        value as int
    }) by (bit_vector)
        requires
            raw == value as u16,
    ;
    let high: u8 = (raw >> 8) as u8;
    let low: u8 = (raw & 0xff) as u8;
    assert(raw >> 8 == raw / 256 && raw & 0xff == raw % 256) by (bit_vector);
    (high, low)
}

/// Decodes the sixteen bytes that start at `start`, whatever their markers.
pub fn sample_at(bytes: &[u8], start: usize) -> (sample: DecodedSample)
    requires
        start + FRAME_LEN <= bytes@.len(),
    ensures
        sample@ == sample_values(bytes@.subrange(start as int, start + FRAME_LEN)),
{
    let ghost frame = bytes@.subrange(start as int, start + FRAME_LEN);
    let total = bytes.len();
    let mut values: [i16; 7] = [0; 7];
    let mut k: usize = 0;
    while k < CHANNEL_COUNT
        invariant
            k <= CHANNEL_COUNT,
            total == bytes@.len(),
            start + FRAME_LEN <= total,
            frame == bytes@.subrange(start as int, start + FRAME_LEN),
            forall|j: int| 0 <= j < k ==> values@[j] == sample_values(frame)[j],
        decreases CHANNEL_COUNT - k,
    {
        let value = combine_bytes(bytes[start + 3 + 2 * k], bytes[start + 4 + 2 * k]);
        assert(frame[3 + 2 * k] == bytes@[start + 3 + 2 * k]);
        assert(frame[4 + 2 * k] == bytes@[start + 4 + 2 * k]);
        values[k] = value;
        k += 1;
    }
    assert(frame[2] == bytes@[start + 2]);
    values[CHANNEL_COUNT] = bytes[start + 2] as i16;
    assert(values@ =~= sample_values(frame));
    DecodedSample { values }
}

/// Decodes `bytes` if they are a frame. No integrity check beyond the three
/// markers exists: a payload damaged in transit decodes to whatever it holds.
pub fn decode_frame(bytes: &[u8]) -> (sample: Option<DecodedSample>)
    ensures
        sample is Some <==> is_frame(bytes@),
        sample matches Some(s) ==> s@ == sample_values(bytes@),
{
    if bytes.len() == FRAME_LEN && bytes[0] == START_MARKER_A && bytes[1] == START_MARKER_B
        && bytes[FRAME_LEN - 1] == END_MARKER {
        assert(bytes@.subrange(0, FRAME_LEN as int) =~= bytes@);
        Some(sample_at(bytes, 0))
    } else {
        None
    }
}

/// Builds the frame that carries `channels` and `counter`.
pub fn encode_frame(channels: &[i16; 6], counter: u8) -> (frame: [u8; 16])
    ensures
        frame@ == frame_bytes(channels@, counter),
{
    let mut frame: [u8; 16] = [0; 16];
    frame[0] = START_MARKER_A;
    frame[1] = START_MARKER_B;
    frame[2] = counter;
    frame[FRAME_LEN - 1] = END_MARKER;
    let mut k: usize = 0;
    while k < CHANNEL_COUNT
        invariant
            k <= CHANNEL_COUNT,
            frame@[0] == START_MARKER_A,
            frame@[1] == START_MARKER_B,
            frame@[2] == counter,
            frame@[15] == END_MARKER,
            forall|j: int|
                0 <= j < k ==> frame@[3 + 2 * j] == high_byte(#[trigger] channels@[j]) && frame@[4
                    + 2 * j] == low_byte(channels@[j]),
        decreases CHANNEL_COUNT - k,
    {
        let pair = split_value(channels[k]);
        frame[3 + 2 * k] = pair.0;
        frame[4 + 2 * k] = pair.1;
        k += 1;
    }
    assert forall|i: int| 0 <= i < 16 implies frame@[i] == frame_bytes(channels@, counter)[i] by {
        if 3 <= i < 15 {
            let j = (i - 3) / 2;
            assert(channels@[j] == channels@[j]);
            assert(i == 3 + 2 * j || i == 4 + 2 * j);
        }
    }
    assert(frame@ =~= frame_bytes(channels@, counter));
    frame
}

/// The counter of a decoded sample is its byte, widened without sign
/// extension: a value from 0 to 255.
pub proof fn lemma_counter_range(frame: Seq<u8>)
    ensures
        sample_values(frame)[6] == frame[2],
        0 <= sample_values(frame)[6] <= 255,
{
}

/// A byte pair split from a value combines back into that value.
pub proof fn lemma_combine_split(value: i16)
    ensures
        channel_value(high_byte(value), low_byte(value)) == value,
{
}

/// A value combined from a byte pair splits back into that pair.
pub proof fn lemma_split_combine(high: u8, low: u8)
    ensures
        high_byte(channel_value(high, low)) == high,
        low_byte(channel_value(high, low)) == low,
{
}

/// Round trip: the frame built from six channel values and a counter is a
/// frame, and decodes to those six values followed by the counter.
pub proof fn lemma_decode_inverts_encode(channels: Seq<i16>, counter: u8)
    requires
        channels.len() == CHANNEL_COUNT,
    ensures
        is_frame(frame_bytes(channels, counter)),
        sample_values(frame_bytes(channels, counter)) == channels.push(counter as i16),
{
    let frame = frame_bytes(channels, counter);
    assert forall|k: int| 0 <= k < 7 implies sample_values(frame)[k] == channels.push(
        counter as i16,
    )[k] by {
        if k < 6 {
            lemma_combine_split(channels[k]);
            assert(frame[3 + 2 * k] == high_byte(channels[k]));
            assert(frame[4 + 2 * k] == low_byte(channels[k]));
        }
    }
    assert(sample_values(frame) =~= channels.push(counter as i16));
}

/// A frame is determined by what it decodes to: encoding the decoded
/// channels and counter gives the frame back.
pub proof fn lemma_encode_inverts_decode(frame: Seq<u8>)
    requires
        is_frame(frame),
    ensures
        frame_bytes(sample_values(frame).take(CHANNEL_COUNT as int), frame[2]) == frame,
{
    let channels = sample_values(frame).take(CHANNEL_COUNT as int);
    let again = frame_bytes(channels, frame[2]);
    assert forall|i: int| 0 <= i < 16 implies again[i] == frame[i] by {
        if 3 <= i < 15 {
            let j = (i - 3) / 2;
            lemma_split_combine(frame[3 + 2 * j], frame[4 + 2 * j]);
            assert(channels[j] == channel_value(frame[3 + 2 * j], frame[4 + 2 * j]));
        }
    }
    assert(again =~= frame);
}

} // verus!
