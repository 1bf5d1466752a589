//! What holds of the decoder on every input.

use crate::audio::{
    advance, carrier, codes_of, delta, is_negative, samples, state_after, step_size, ChannelState,
    DeltaLaw, INDEX_MAX, SAMPLE_MAX, SAMPLE_MIN,
};
use vstd::prelude::*;

verus! {

/// Every step size lies between 7 and 32767.
pub proof fn step_size_bounds(index: int)
    requires
        0 <= index <= INDEX_MAX,
    ensures
        7 <= step_size(index) <= 32767,
{
}

/// A delta is never negative, and grows with the magnitude.
pub proof fn delta_grows_with_magnitude(law: DeltaLaw, step: int, low: int, high: int)
    requires
        0 <= step,
        0 <= low <= high < 8,
    ensures
        0 <= delta(law, step, low) <= delta(law, step, high),
{
    match law {
        DeltaLaw::Scaled => {
            assert(0 <= step * low <= step * high) by (nonlinear_arith)
                requires
                    0 <= step,
                    0 <= low <= high,
            ;
        },
        DeltaLaw::Composed => {},
    }
}

/// The two delta laws give the same delta for the magnitudes 0, 1, 2, 4, 5
/// and 6. For 3 and 7 the scaled law gives the same or one more.
pub proof fn delta_laws_differ_by_at_most_one(step: int, magnitude: int)
    requires
        0 <= step,
        0 <= magnitude < 8,
    ensures
        delta(DeltaLaw::Composed, step, magnitude) <= delta(DeltaLaw::Scaled, step, magnitude)
            <= delta(DeltaLaw::Composed, step, magnitude) + 1,
        magnitude % 4 != 3 ==> delta(DeltaLaw::Scaled, step, magnitude) == delta(
            DeltaLaw::Composed,
            step,
            magnitude,
        ),
{
    assert(step * magnitude == if magnitude == 0 {
        0
    } else if magnitude == 1 {
        step
    } else if magnitude == 2 {
        2 * step
    } else if magnitude == 3 {
        3 * step
    } else if magnitude == 4 {
        4 * step
    } else if magnitude == 5 {
        5 * step
    } else if magnitude == 6 {
        6 * step
    } else {
        7 * step
    }) by (nonlinear_arith)
        requires
            0 <= magnitude < 8,
    ;
}

/// After at least one code the sample is a signed 16-bit value, whatever the
/// codes were; a sample that was one before stays one.
pub proof fn sample_stays_in_range(law: DeltaLaw, state: ChannelState, codes: Seq<u8>)
    requires
        codes.len() > 0 || state.sample_in_range(),
    ensures
        state_after(law, state, codes).sample_in_range(),
{
}

/// The step index never leaves the range from 0 to 88.
pub proof fn index_stays_in_range(law: DeltaLaw, state: ChannelState, codes: Seq<u8>)
    requires
        state.index_in_range(),
    ensures
        state_after(law, state, codes).index_in_range(),
{
}

/// Consuming two sequences of codes one after the other is consuming their
/// concatenation.
pub proof fn state_after_concat(law: DeltaLaw, state: ChannelState, first: Seq<u8>, second: Seq<u8>)
    ensures
        state_after(law, state, first + second) == state_after(
            law,
            state_after(law, state, first),
            second,
        ),
    decreases second.len(),
{
    if second.len() == 0 {
        assert(first + second =~= first);
    } else {
        assert((first + second).drop_last() =~= first + second.drop_last());
        assert((first + second).last() == second.last());
        state_after_concat(law, state, first, second.drop_last());
    }
}

/// The codes of two payloads, one after the other, are the codes of their
/// concatenation.
pub proof fn codes_of_concat(first: Seq<u8>, second: Seq<u8>)
    ensures
        codes_of(first + second) == codes_of(first) + codes_of(second),
{
    let whole = codes_of(first + second);
    let parts = codes_of(first) + codes_of(second);
    assert(whole.len() == parts.len());
    assert forall|k: int| 0 <= k < whole.len() implies whole[k] == parts[k] by {
        if k < 2 * first.len() {
            assert((first + second)[k / 2] == first[k / 2]);
        } else {
            let j = k - 2 * first.len();
            assert(j / 2 == k / 2 - first.len());
            assert(j % 2 == k % 2);
            assert((first + second)[k / 2] == second[j / 2]);
        }
    }
    assert(whole =~= parts);
}

/// Decoding does not depend on how a payload is split into calls: decoding
/// `first` and then `second`, with the state carried across, gives the
/// samples and the final state of decoding the two as one payload.
pub proof fn decoding_is_independent_of_splitting(
    law: DeltaLaw,
    state: ChannelState,
    first: Seq<u8>,
    second: Seq<u8>,
)
    ensures
        samples(law, state, codes_of(first + second)) == samples(law, state, codes_of(first))
            + samples(law, state_after(law, state, codes_of(first)), codes_of(second)),
        state_after(law, state, codes_of(first + second)) == state_after(
            law,
            state_after(law, state, codes_of(first)),
            codes_of(second),
        ),
{
    let a = codes_of(first);
    let b = codes_of(second);
    let middle = state_after(law, state, a);
    codes_of_concat(first, second);
    state_after_concat(law, state, a, b);
    let whole = samples(law, state, a + b);
    let parts = samples(law, state, a) + samples(law, middle, b);
    assert(whole.len() == parts.len());
    assert forall|k: int| 0 <= k < whole.len() implies whole[k] == parts[k] by {
        if k < a.len() {
            assert((a + b).take(k + 1) =~= a.take(k + 1));
        } else {
            let j = k - a.len();
            assert((a + b).take(k + 1) =~= a + b.take(j + 1));
            state_after_concat(law, state, a, b.take(j + 1));
        }
    }
    assert(whole =~= parts);
}

/// A code whose sign bit is clear never lowers the sample, and one whose sign
/// bit is set never raises it.
pub proof fn sample_moves_with_sign(law: DeltaLaw, state: ChannelState, code: u8)
    requires
        state.index_in_range(),
        state.sample_in_range(),
    ensures
        !is_negative(code) ==> advance(law, state, code).sample >= state.sample,
        is_negative(code) ==> advance(law, state, code).sample <= state.sample,
{
    step_size_bounds(state.index);
    delta_grows_with_magnitude(law, step_size(state.index), 0, code as int % 8);
}

/// The sample saturates and does not wrap: where a code would move it past
/// the largest or the smallest 16-bit value, it takes exactly that value.
pub proof fn sample_saturates(law: DeltaLaw, state: ChannelState, code: u8)
    requires
        state.index_in_range(),
    ensures
        ({
            let d = delta(law, step_size(state.index), code as int % 8);
            &&& !is_negative(code) && state.sample + d >= SAMPLE_MAX ==> advance(
                law,
                state,
                code,
            ).sample == SAMPLE_MAX
            &&& is_negative(code) && state.sample - d <= SAMPLE_MIN ==> advance(
                law,
                state,
                code,
            ).sample == SAMPLE_MIN
        }),
{
    step_size_bounds(state.index);
    delta_grows_with_magnitude(law, step_size(state.index), 0, code as int % 8);
}

/// A sample at the largest value stays there while the codes have their sign
/// bit clear.
pub proof fn ceiling_is_kept(law: DeltaLaw, state: ChannelState, codes: Seq<u8>)
    requires
        state.index_in_range(),
        state.sample == SAMPLE_MAX,
        forall|k: int| 0 <= k < codes.len() ==> !is_negative(#[trigger] codes[k]),
    ensures
        state_after(law, state, codes).sample == SAMPLE_MAX,
    decreases codes.len(),
{
    if codes.len() > 0 {
        let rest = codes.drop_last();
        assert forall|k: int| 0 <= k < rest.len() implies !is_negative(#[trigger] rest[k]) by {
            assert(rest[k] == codes[k]);
        }
        ceiling_is_kept(law, state, rest);
        index_stays_in_range(law, state, rest);
        sample_moves_with_sign(law, state_after(law, state, rest), codes.last());
    }
}

/// A sample at the smallest value stays there while the codes have their sign
/// bit set.
pub proof fn floor_is_kept(law: DeltaLaw, state: ChannelState, codes: Seq<u8>)
    requires
        state.index_in_range(),
        state.sample == SAMPLE_MIN,
        forall|k: int| 0 <= k < codes.len() ==> is_negative(#[trigger] codes[k]),
    ensures
        state_after(law, state, codes).sample == SAMPLE_MIN,
    decreases codes.len(),
{
    if codes.len() > 0 {
        let rest = codes.drop_last();
        assert forall|k: int| 0 <= k < rest.len() implies is_negative(#[trigger] rest[k]) by {
            assert(rest[k] == codes[k]);
        }
        floor_is_kept(law, state, rest);
        index_stays_in_range(law, state, rest);
        sample_moves_with_sign(law, state_after(law, state, rest), codes.last());
    }
}

/// A payload of zero bytes decoded from the initial state leaves the state as
/// it is and gives samples that are all zero: at step size 7 the delta of
/// magnitude 0 is 0, and the step index cannot fall below 0.
pub proof fn zero_payload_from_initial_state(law: DeltaLaw, payload: Seq<u8>)
    requires
        forall|k: int| 0 <= k < payload.len() ==> #[trigger] payload[k] == 0,
    ensures
        state_after(law, ChannelState::initial(), codes_of(payload)) == ChannelState::initial(),
        forall|k: int|
            0 <= k < 2 * payload.len() ==> #[trigger] samples(
                law,
                ChannelState::initial(),
                codes_of(payload),
            )[k] == 0,
{
    let codes = codes_of(payload);
    assert forall|k: int| 0 <= k <= codes.len() implies #[trigger] state_after(
        law,
        ChannelState::initial(),
        codes.take(k),
    ) == ChannelState::initial() by {
        zero_codes_keep_initial_state(law, codes.take(k));
    }
    assert(codes.take(codes.len() as int) =~= codes);
    assert forall|k: int| 0 <= k < 2 * payload.len() implies #[trigger] samples(
        law,
        ChannelState::initial(),
        codes,
    )[k] == 0 by {
        assert(state_after(law, ChannelState::initial(), codes.take(k + 1))
            == ChannelState::initial());
        assert(carrier(0) == 0);
    }
}

/// Codes that are all zero leave the initial state as it is.
proof fn zero_codes_keep_initial_state(law: DeltaLaw, codes: Seq<u8>)
    requires
        forall|k: int| 0 <= k < codes.len() ==> #[trigger] codes[k] == 0,
    ensures
        state_after(law, ChannelState::initial(), codes) == ChannelState::initial(),
    decreases codes.len(),
{
    if codes.len() > 0 {
        let rest = codes.drop_last();
        assert forall|k: int| 0 <= k < rest.len() implies #[trigger] rest[k] == 0 by {
            assert(rest[k] == codes[k]);
        }
        zero_codes_keep_initial_state(law, rest);
        assert(codes.last() == 0);
        assert(step_size(0) == 7);
    }
}

} // verus!
