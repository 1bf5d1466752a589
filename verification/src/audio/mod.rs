//! Audio decompression for `SND2` chunks.
//!
//! A channel is decoded one 4-bit code at a time. Each code moves the
//! accumulated sample by a delta scaled by the current step size, and then
//! adapts the step index. The state of a channel is carried from one chunk to
//! the next.

use vstd::prelude::*;

pub mod codec;
pub mod laws;

pub use crate::audio::codec::CodecState;

verus! {

/// Step sizes of the adaptive quantizer, indexed by the step index.
pub const STEP_TABLE: [u32; 89] = [
    7,     8,     9,     10,    11,    12,     13,    14,    16,
    17,    19,    21,    23,    25,    28,     31,    34,    37,
    41,    45,    50,    55,    60,    66,     73,    80,    88,
    97,    107,   118,   130,   143,   157,    173,   190,   209,
    230,   253,   279,   307,   337,   371,    408,   449,   494,
    544,   598,   658,   724,   796,   876,    963,   1060,  1166,
    1282,  1411,  1552,  1707,  1878,  2066,   2272,  2499,  2749,
    3024,  3327,  3660,  4026,  4428,  4871,   5358,  5894,  6484,
    7132,  7845,  8630,  9493,  10442, 11487,  12635, 13899, 15289,
    16818, 18500, 20350, 22385, 24623, 27086,  29794, 32767,
];

/// Change of the step index, indexed by the magnitude of a code.
pub const INDEX_ADJUSTMENT: [i32; 8] = [-1, -1, -1, -1, 2, 4, 6, 8];

/// Smallest value of a decoded sample.
pub const SAMPLE_MIN: i32 = -32768;

/// Largest value of a decoded sample.
pub const SAMPLE_MAX: i32 = 32767;

/// Largest step index.
pub const INDEX_MAX: i32 = 88;

/// The construction of the sample delta from a step size and a magnitude.
///
/// Two constructions are in use for this codec. They agree on most
/// magnitudes and never differ by more than one (see
/// [`laws::delta_laws_differ_by_at_most_one`]).
#[derive(Clone, Copy, Debug, PartialEq, Eq, Structural)]
pub enum DeltaLaw {
    /// `step * magnitude / 4 + step / 8`.
    Scaled,
    /// `step / 8`, plus `step`, `step / 2` and `step / 4` for the bits 2, 1
    /// and 0 of the magnitude that are set.
    Composed,
}

/// The decoder state of one channel, as a mathematical value.
pub struct ChannelState {
    /// The accumulated sample.
    pub sample: int,
    /// The step index.
    pub index: int,
}

impl ChannelState {
    /// The state at the start of a channel's life.
    pub open spec fn initial() -> ChannelState {
        ChannelState { sample: 0, index: 0 }
    }

    /// The step index selects an entry of the step table.
    pub open spec fn index_in_range(self) -> bool {
        0 <= self.index <= INDEX_MAX
    }

    /// The sample is a signed 16-bit value.
    pub open spec fn sample_in_range(self) -> bool {
        SAMPLE_MIN <= self.sample <= SAMPLE_MAX
    }
}

/// `x` limited to the range from `lo` to `hi`.
pub open spec fn clamp(x: int, lo: int, hi: int) -> int {
    if x < lo {
        lo
    } else if x > hi {
        hi
    } else {
        x
    }
}

/// The step size selected by `index`.
pub open spec fn step_size(index: int) -> int {
    STEP_TABLE[index] as int
}

/// Bits 0 to 2 of a code.
pub open spec fn magnitude(code: u8) -> int {
    code as int % 8
}

/// Bit 3 of a code.
pub open spec fn is_negative(code: u8) -> bool {
    (code as int / 8) % 2 == 1
}

/// The size of the move that a code of the given magnitude makes at the given
/// step size.
pub open spec fn delta(law: DeltaLaw, step: int, magnitude: int) -> int {
    match law {
        DeltaLaw::Scaled => step * magnitude / 4 + step / 8,
        DeltaLaw::Composed => step / 8 + (if magnitude / 4 % 2 == 1 {
            step
        } else {
            0
        }) + (if magnitude / 2 % 2 == 1 {
            step / 2
        } else {
            0
        }) + (if magnitude % 2 == 1 {
            step / 4
        } else {
            0
        }),
    }
}

/// The state after one code has been consumed.
pub open spec fn advance(law: DeltaLaw, state: ChannelState, code: u8) -> ChannelState {
    let d = delta(law, step_size(state.index), magnitude(code));
    let moved = if is_negative(code) {
        state.sample - d
    } else {
        state.sample + d
    };
    ChannelState {
        sample: clamp(moved, SAMPLE_MIN as int, SAMPLE_MAX as int),
        index: clamp(
            state.index + INDEX_ADJUSTMENT[magnitude(code)],
            0,
            INDEX_MAX as int,
        ),
    }
}

/// The state after a sequence of codes has been consumed, first to last.
pub open spec fn state_after(law: DeltaLaw, state: ChannelState, codes: Seq<u8>) -> ChannelState
    decreases codes.len(),
{
    if codes.len() == 0 {
        state
    } else {
        advance(law, state_after(law, state, codes.drop_last()), codes.last())
    }
}

/// The codes that a payload holds: two for each byte, the low nibble before
/// the high nibble.
pub open spec fn codes_of(bytes: Seq<u8>) -> Seq<u8> {
    Seq::new(
        2 * bytes.len(),
        |k: int|
            if k % 2 == 0 {
                bytes[k / 2] % 16
            } else {
                bytes[k / 2] / 16
            },
    )
}

/// The unsigned 16-bit value that carries a signed 16-bit sample.
pub open spec fn carrier(sample: int) -> u16 {
    if sample >= 0 {
        sample as u16
    } else {
        (sample + 65536) as u16
    }
}

/// The samples that a sequence of codes decodes to: one for each code, the
/// accumulated sample after that code.
pub open spec fn samples(law: DeltaLaw, state: ChannelState, codes: Seq<u8>) -> Seq<u16> {
    Seq::new(
        codes.len(),
        |k: int| carrier(state_after(law, state, codes.take(k + 1)).sample),
    )
}

/// The step size at a step index.
fn step_at(index: i32) -> (step: u32)
    requires
        0 <= index <= INDEX_MAX,
    ensures
        step == step_size(index as int),
        7 <= step <= 32767,
{
    STEP_TABLE[index as usize]
}

/// The sample delta for one code.
fn delta_of(law: DeltaLaw, step: u32, magnitude: u8) -> (d: u32)
    requires
        step <= 32767,
        magnitude < 8,
    ensures
        d == delta(law, step as int, magnitude as int),
        d <= 61437,
{
    match law {
        DeltaLaw::Scaled => {
            assert(step * magnitude <= 229369) by (nonlinear_arith)
                requires
                    step <= 32767,
                    magnitude < 8,
            ;
            step * (magnitude as u32) / 4 + step / 8
        },
        DeltaLaw::Composed => {
            let mut d: u32 = step / 8;
            if magnitude / 4 % 2 == 1 {
                d = d + step;
            }
            if magnitude / 2 % 2 == 1 {
                d = d + step / 2;
            }
            if magnitude % 2 == 1 {
                d = d + step / 4;
            }
            d
        },
    }
}

/// Consumes one code: returns the new sample and the new step index.
pub(crate) fn decode_code(law: DeltaLaw, sample: i32, index: i32, code: u8) -> (next: (i32, i32))
    requires
        0 <= index <= INDEX_MAX,
        code < 16,
    ensures
        (ChannelState { sample: next.0 as int, index: next.1 as int }) == advance(
            law,
            ChannelState { sample: sample as int, index: index as int },
            code,
        ),
        SAMPLE_MIN <= next.0 <= SAMPLE_MAX,
        0 <= next.1 <= INDEX_MAX,
{
    let magnitude: u8 = code & 7;
    let negative: bool = code & 8 != 0;
    assert(code & 7 == code % 8) by (bit_vector);
    assert((code & 8 != 0) == ((code / 8) % 2 == 1)) by (bit_vector);
    let d: i64 = delta_of(law, step_at(index), magnitude) as i64;
    let moved: i64 = if negative {
        sample as i64 - d
    } else {
        sample as i64 + d
    };
    let next_sample: i32 = if moved < SAMPLE_MIN as i64 {
        SAMPLE_MIN
    } else if moved > SAMPLE_MAX as i64 {
        SAMPLE_MAX
    } else {
        moved as i32
    };
    let adjusted: i32 = index + INDEX_ADJUSTMENT[magnitude as usize];
    let next_index: i32 = if adjusted < 0 {
        0
    } else if adjusted > INDEX_MAX {
        INDEX_MAX
    } else {
        adjusted
    };
    (next_sample, next_index)
}

/// The carrier of a sample.
pub(crate) fn carrier_of(sample: i32) -> (c: u16)
    requires
        SAMPLE_MIN <= sample <= SAMPLE_MAX,
    ensures
        c == carrier(sample as int),
{
    if sample >= 0 {
        sample as u16
    } else {
        (sample + 65536) as u16
    }
}

/// Calls `Vec::into_boxed_slice` of the standard library. Trusted: the box
/// holds the elements of the vector, in the same order.
#[verifier::external_body]
pub(crate) fn into_boxed(v: Vec<u16>) -> (b: Box<[u16]>)
    ensures
        b@ == v@,
{
    v.into_boxed_slice()
}

/// Decompresses the codes of one channel with the scaled delta law, and
/// carries the state of the channel on.
///
/// The first call for a channel passes 0 for `index` and 0 for `sample`. Later
/// calls pass what the call before left in them. The step index has to lie
/// between 0 and 88.
pub fn decompress(input: &[u8], index: &mut i32, sample: &mut i32) -> (out: Box<[u16]>)
    requires
        0 <= *old(index) <= INDEX_MAX,
    ensures
        out@.len() == 2 * input@.len(),
        out@ == samples(
            DeltaLaw::Scaled,
            ChannelState { sample: *old(sample) as int, index: *old(index) as int },
            codes_of(input@),
        ),
        (ChannelState { sample: *final(sample) as int, index: *final(index) as int })
            == state_after(
            DeltaLaw::Scaled,
            ChannelState { sample: *old(sample) as int, index: *old(index) as int },
            codes_of(input@),
        ),
        0 <= *final(index) <= INDEX_MAX,
        input@.len() > 0 ==> SAMPLE_MIN <= *final(sample) <= SAMPLE_MAX,
{
    let (buffer, next_sample, next_index) = decode_payload(
        DeltaLaw::Scaled,
        *sample,
        *index,
        input,
    );
    *sample = next_sample;
    *index = next_index;
    into_boxed(buffer)
}

/// Decodes a payload from the given state: returns the samples, the new
/// sample and the new step index.
pub(crate) fn decode_payload(law: DeltaLaw, sample: i32, index: i32, input: &[u8]) -> (r: (
    Vec<u16>,
    i32,
    i32,
))
    requires
        0 <= index <= INDEX_MAX,
    ensures
        r.0@ == samples(
            law,
            ChannelState { sample: sample as int, index: index as int },
            codes_of(input@),
        ),
        (ChannelState { sample: r.1 as int, index: r.2 as int }) == state_after(
            law,
            ChannelState { sample: sample as int, index: index as int },
            codes_of(input@),
        ),
        0 <= r.2 <= INDEX_MAX,
        input@.len() > 0 || SAMPLE_MIN <= sample <= SAMPLE_MAX ==> SAMPLE_MIN <= r.1 <= SAMPLE_MAX,
{
    let ghost start = ChannelState { sample: sample as int, index: index as int };
    let ghost codes = codes_of(input@);
    let mut buffer: Vec<u16> = Vec::new();
    let mut cur_sample: i32 = sample;
    let mut cur_index: i32 = index;
    assert(codes.take(0) =~= Seq::<u8>::empty());
    for i in 0..input.len()
        invariant
            codes == codes_of(input@),
            start == (ChannelState { sample: sample as int, index: index as int }),
            0 <= cur_index <= INDEX_MAX,
            i > 0 || SAMPLE_MIN <= sample <= SAMPLE_MAX ==> SAMPLE_MIN <= cur_sample <= SAMPLE_MAX,
            (ChannelState { sample: cur_sample as int, index: cur_index as int }) == state_after(
                law,
                start,
                codes.take(2 * i),
            ),
            buffer@.len() == 2 * i,
            forall|k: int|
                0 <= k < 2 * i ==> buffer@[k] == carrier(
                    #[trigger] state_after(law, start, codes.take(k + 1)).sample,
                ),
    {
        let byte: u8 = input[i];
        let low: u8 = byte & 0x0f;
        let high: u8 = byte >> 4;
        assert(byte & 0x0f == byte % 16) by (bit_vector);
        assert(byte >> 4 == byte / 16) by (bit_vector);
        let ghost before = codes.take(2 * i);
        let ghost with_low = codes.take(2 * i + 1);
        let ghost with_high = codes.take(2 * i + 2);
        proof {
            assert(with_low.drop_last() =~= before);
            assert(with_low.last() == low);
            assert(with_high.drop_last() =~= with_low);
            assert(with_high.last() == high);
        }
        let (s1, i1) = decode_code(law, cur_sample, cur_index, low);
        assert((ChannelState { sample: s1 as int, index: i1 as int }) == state_after(
            law,
            start,
            with_low,
        ));
        buffer.push(carrier_of(s1));
        let (s2, i2) = decode_code(law, s1, i1, high);
        assert((ChannelState { sample: s2 as int, index: i2 as int }) == state_after(
            law,
            start,
            with_high,
        ));
        buffer.push(carrier_of(s2));
        cur_sample = s2;
        cur_index = i2;
    }
    assert(codes.take(2 * input@.len() as int) =~= codes);
    assert(buffer@ =~= samples(law, start, codes));
    (buffer, cur_sample, cur_index)
}

} // verus!
