//! The decoder with the state of a channel held in one value.

use crate::audio::{
    codes_of, decode_payload, into_boxed, samples, state_after, ChannelState, DeltaLaw, INDEX_MAX,
    SAMPLE_MAX, SAMPLE_MIN,
};
use vstd::prelude::*;

verus! {

/// The decoder state of one audio channel.
///
/// It lives as long as the channel does: it is not reset between chunks.
pub struct CodecState {
    sample: i32,
    index: i32,
}

impl View for CodecState {
    type V = ChannelState;

    closed spec fn view(&self) -> ChannelState {
        ChannelState { sample: self.sample as int, index: self.index as int }
    }
}

impl CodecState {
    /// The sample is a signed 16-bit value and the step index selects an
    /// entry of the step table.
    #[verifier::type_invariant]
    pub closed spec fn well_formed(self) -> bool {
        &&& SAMPLE_MIN <= self.sample <= SAMPLE_MAX
        &&& 0 <= self.index <= INDEX_MAX
    }

    /// The state at the start of a channel's life.
    pub fn new() -> (state: CodecState)
        ensures
            state@ == ChannelState::initial(),
    {
        CodecState { sample: 0, index: 0 }
    }

    /// The accumulated sample.
    pub fn sample(&self) -> (sample: i32)
        ensures
            sample == self@.sample,
            SAMPLE_MIN <= sample <= SAMPLE_MAX,
    {
        proof {
            use_type_invariant(self);
        }
        self.sample
    }

    /// The step index.
    pub fn index(&self) -> (index: i32)
        ensures
            index == self@.index,
            0 <= index <= INDEX_MAX,
    {
        proof {
            use_type_invariant(self);
        }
        self.index
    }
}

/// Decompresses the codes of a single audio channel with the composed delta
/// law, and carries the state of the channel on.
///
/// Pass in a separate `state` for each channel.
pub fn decompress(state: &mut CodecState, input: &[u8]) -> (out: Box<[u16]>)
    ensures
        out@.len() == 2 * input@.len(),
        out@ == samples(DeltaLaw::Composed, old(state)@, codes_of(input@)),
        final(state)@ == state_after(DeltaLaw::Composed, old(state)@, codes_of(input@)),
        final(state)@.index_in_range(),
        final(state)@.sample_in_range(),
{
    proof {
        use_type_invariant(&*state);
    }
    let (buffer, next_sample, next_index) = decode_payload(
        DeltaLaw::Composed,
        state.sample,
        state.index,
        input,
    );
    state.sample = next_sample;
    state.index = next_index;
    into_boxed(buffer)
}

} // verus!
