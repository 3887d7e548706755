//! When the bitrate is limited, after any number of calls.

use crate::average::{with_samples, Window};
use crate::bitrate::{
    law_reported_size_is_found, sizes_from, AdaptiveBitrate, BitrateConfig, BitrateMode,
    BitrateModel, BitrateQuery, DecoderLatencyFixer, EncoderQuery, FramerateQuery, Switch,
    INITIAL_BITRATE_BITS, MAX_BITRATE_BITS,
};
use crate::time::duration_nanos;
use crate::time::Instant;
use vstd::prelude::*;

verus! {

/// The latencies of a frame, in nanoseconds.
pub struct FrameLatencies {
    pub timestamp: nat,
    pub network_latency: nat,
    pub decoder_latency: nat,
}

/// A call that has to do with the bitrate.
pub enum BitrateCall {
    FramePresent { now: Instant },
    SettleInterval { interval: nat, deviates: bool },
    EncodedFrameSize { timestamp: nat, size_bytes: usize },
    Latencies(FrameLatencies),
    SubmitBitrate { bitrate_bits: u32 },
    LimitBitrate { bitrate_bits: u32 },
    EncoderParams { now: Instant },
}

/// After a call.
pub open spec fn after_call(bitrate: BitrateModel, call: BitrateCall) -> BitrateModel {
    match call {
        BitrateCall::FramePresent { now } => bitrate.after_present(now),
        BitrateCall::SettleInterval { interval, deviates } => bitrate.after_interval(
            interval,
            deviates,
        ),
        BitrateCall::EncodedFrameSize { timestamp, size_bytes } => bitrate.after_size(
            timestamp,
            size_bytes,
        ),
        BitrateCall::Latencies(frame) => bitrate.after_latencies(
            frame.timestamp,
            frame.network_latency,
            frame.decoder_latency,
        ),
        BitrateCall::SubmitBitrate { bitrate_bits } => bitrate.after_sample(bitrate_bits),
        BitrateCall::LimitBitrate { bitrate_bits } => bitrate.after_limit(bitrate_bits),
        BitrateCall::EncoderParams { now } => bitrate.after_params(now),
    }
}

/// After a number of calls, one after the other.
pub open spec fn after_calls(bitrate: BitrateModel, calls: Seq<BitrateCall>) -> BitrateModel
    decreases calls.len(),
{
    if calls.len() == 0 {
        bitrate
    } else {
        after_call(after_calls(bitrate, calls.drop_last()), calls.last())
    }
}

/// The frames whose latencies were reported. Those that were not on the network are passed over.
pub open spec fn frames_in(calls: Seq<BitrateCall>) -> Seq<FrameLatencies>
    decreases calls.len(),
{
    if calls.len() == 0 {
        Seq::empty()
    } else {
        match calls.last() {
            BitrateCall::Latencies(frame) if frame.network_latency > 0 => frames_in(
                calls.drop_last(),
            ).push(frame),
            _ => frames_in(calls.drop_last()),
        }
    }
}

/// A frame that took the decoder too long.
pub open spec fn oversteps(frame: FrameLatencies, fixer: DecoderLatencyFixer) -> bool {
    frame.decoder_latency > fixer.max_decoder_latency_ms * 1_000_000
}

/// The last of the frames is one too many: it and the frames right before it, as many together as
/// the settings say, took the decoder too long, and none of those before it was one too many.
pub open spec fn is_one_too_many(frames: Seq<FrameLatencies>, fixer: DecoderLatencyFixer) -> bool
    decreases frames.len(),
{
    let count = fixer.latency_overstep_frames as usize;
    &&& 1 <= count <= frames.len()
    &&& forall|i: int| #![trigger frames[i]]
        frames.len() - count <= i < frames.len() ==> oversteps(frames[i], fixer) && (i
            < frames.len() - 1 ==> !is_one_too_many(frames.take(i + 1), fixer))
}

/// Whatever calls were made before, in whatever order, the bitrate is to be limited just when a
/// frame is one too many. The encoder then gets new parameters.
pub proof fn law_limit_comes_with_one_frame_too_many(
    bitrate: BitrateModel,
    fixer: DecoderLatencyFixer,
    calls: Seq<BitrateCall>,
    frame: FrameLatencies,
)
    requires
        bitrate.config.latency_fixer() == Some(fixer),
        bitrate.decoder_latency_overstep_count == 0,
        frame.network_latency > 0,
    ensures
        ({
            let before = after_calls(bitrate, calls);
            let frames = frames_in(calls.push(BitrateCall::Latencies(frame)));
            let reaction = before.reaction(
                frame.timestamp,
                frame.network_latency,
                frame.decoder_latency,
            );
            let after = before.after_latencies(
                frame.timestamp,
                frame.network_latency,
                frame.decoder_latency,
            );
            &&& frames == frames_in(calls).push(frame)
            &&& reaction.limit_multiplier_bits == if is_one_too_many(frames, fixer) {
                Some(fixer.latency_overstep_multiplier_bits)
            } else {
                None
            }
            &&& is_one_too_many(frames, fixer) ==> after.update_needed
        }),
{
    let call = BitrateCall::Latencies(frame);
    assert(calls.push(call).drop_last() =~= calls);
    lemma_oversteps_are_counted(bitrate, fixer, calls);
    lemma_one_too_many(
        frames_in(calls),
        frame,
        fixer,
        after_calls(bitrate, calls).decoder_latency_overstep_count,
    );
}

/// The number counts the latest frames that took the decoder too long, as far back as a frame that
/// did not or that was one too many.
spec fn is_count_of(count: usize, frames: Seq<FrameLatencies>, fixer: DecoderLatencyFixer) -> bool {
    &&& count <= frames.len()
    &&& count == 0 || count < fixer.latency_overstep_frames as usize
    &&& forall|i: int| #![trigger frames[i]]
        frames.len() - count <= i < frames.len() ==> oversteps(frames[i], fixer)
            && !is_one_too_many(frames.take(i + 1), fixer)
    &&& count < frames.len() ==> !oversteps(frames[frames.len() - count - 1], fixer)
        || is_one_too_many(frames.take(frames.len() - count), fixer)
}

/// One more frame is one too many if it takes the decoder too long and completes the count.
proof fn lemma_one_too_many(
    frames: Seq<FrameLatencies>,
    frame: FrameLatencies,
    fixer: DecoderLatencyFixer,
    count: usize,
)
    requires
        fixer.latency_overstep_frames as usize > 0 ==> is_count_of(count, frames, fixer),
    ensures
        is_one_too_many(frames.push(frame), fixer) <==> oversteps(frame, fixer) && count + 1
            == fixer.latency_overstep_frames as usize,
{
    let more = frames.push(frame);
    let limit = fixer.latency_overstep_frames as usize;
    let len = frames.len() as int;
    if limit > 0 {
        assert forall|i: int| 0 <= i <= len implies #[trigger] more.take(i) == frames.take(i) by {
            assert(more.take(i) =~= frames.take(i));
        }
        assert(forall|i: int| 0 <= i < len ==> #[trigger] more[i] == frames[i]);
        assert(more[len] == frame);
        if oversteps(frame, fixer) && count + 1 == limit {
            assert forall|i: int| #![trigger more[i]]
                more.len() - limit <= i < more.len() implies oversteps(more[i], fixer) && (i
                < more.len() - 1 ==> !is_one_too_many(more.take(i + 1), fixer)) by {
                if i < len {
                    assert(oversteps(frames[i], fixer));
                    assert(more.take(i + 1) == frames.take(i + 1));
                }
            }
        }
        if is_one_too_many(more, fixer) {
            assert(oversteps(more[len], fixer));
            if count + 1 < limit {
                let i = len - count - 1;
                assert(oversteps(more[i], fixer));
                assert(!is_one_too_many(more.take(i + 1), fixer));
                assert(more.take(i + 1) == frames.take(i + 1));
                assert(false);
            }
        }
    }
}

/// The count keeps up with the frames.
proof fn lemma_oversteps_are_counted(
    bitrate: BitrateModel,
    fixer: DecoderLatencyFixer,
    calls: Seq<BitrateCall>,
)
    requires
        bitrate.config.latency_fixer() == Some(fixer),
        bitrate.decoder_latency_overstep_count == 0,
    ensures
        after_calls(bitrate, calls).config == bitrate.config,
        fixer.latency_overstep_frames as usize > 0 ==> is_count_of(
            after_calls(bitrate, calls).decoder_latency_overstep_count,
            frames_in(calls),
            fixer,
        ),
    decreases calls.len(),
{
    if calls.len() > 0 {
        let before = after_calls(bitrate, calls.drop_last());
        let after = after_calls(bitrate, calls);
        lemma_oversteps_are_counted(bitrate, fixer, calls.drop_last());
        match calls.last() {
            BitrateCall::Latencies(frame) if frame.network_latency > 0 => {
                let frames = frames_in(calls.drop_last());
                let more = frames.push(frame);
                let count = before.decoder_latency_overstep_count;
                let len = frames.len() as int;
                lemma_one_too_many(frames, frame, fixer, count);
                if fixer.latency_overstep_frames as usize > 0 {
                    assert(more.take(more.len() as int) =~= more);
                    assert forall|i: int| 0 <= i <= len implies #[trigger] more.take(i)
                        == frames.take(i) by {
                        assert(more.take(i) =~= frames.take(i));
                    }
                    assert(more[len] == frame);
                    let new_count = after.decoder_latency_overstep_count;
                    assert forall|i: int| #![trigger more[i]]
                        more.len() - new_count <= i < more.len() implies oversteps(more[i], fixer)
                        && !is_one_too_many(more.take(i + 1), fixer) by {
                        if i < len {
                            assert(more[i] == frames[i]);
                            assert(more.take(i + 1) == frames.take(i + 1));
                        }
                    }
                    if 0 < new_count < more.len() {
                        let i = more.len() - new_count - 1;
                        assert(more[i] == frames[i]);
                        assert(more.take(i + 1) == frames.take(i + 1));
                    }
                    assert(is_count_of(new_count, more, fixer));
                }
            },
            _ => {},
        }
    }
}

/// A frame that the decoder takes in time starts the count anew.
pub proof fn law_count_starts_anew(
    bitrate: BitrateModel,
    fixer: DecoderLatencyFixer,
    frame: FrameLatencies,
)
    requires
        bitrate.config.latency_fixer() == Some(fixer),
        frame.network_latency > 0,
        !oversteps(frame, fixer),
    ensures
        bitrate.after_latencies(
            frame.timestamp,
            frame.network_latency,
            frame.decoder_latency,
        ).decoder_latency_overstep_count == 0,
{
}

/// The largest bitrate that the encoder may be given stays as it is until it is limited.
pub proof fn law_only_a_limit_changes_the_largest_bitrate(
    bitrate: BitrateModel,
    calls: Seq<BitrateCall>,
)
    requires
        forall|i: int| 0 <= i < calls.len() ==> !((#[trigger] calls[i]) is LimitBitrate),
    ensures
        after_calls(bitrate, calls).dynamic_max_bitrate_bits == bitrate.dynamic_max_bitrate_bits,
    decreases calls.len(),
{
    if calls.len() > 0 {
        let before = calls.drop_last();
        assert forall|i: int| 0 <= i < before.len() implies !((
        #[trigger] before[i]) is LimitBitrate) by {
            assert(before[i] == calls[i]);
        }
        law_only_a_limit_changes_the_largest_bitrate(bitrate, before);
        assert(calls.last() == calls[calls.len() - 1]);
    }
}

/// The bitrate is limited by what the settings say of the decoder, in the adaptive mode and where
/// that is enabled. Otherwise it is never limited.
pub proof fn law_fixer_is_that_of_the_settings(
    bitrate: BitrateModel,
    adaptive: AdaptiveBitrate,
    fixer: DecoderLatencyFixer,
    frame: FrameLatencies,
)
    ensures
        bitrate.config.mode == BitrateMode::Adaptive(adaptive) && adaptive.decoder_latency_fixer
            == Switch::Enabled(fixer) ==> bitrate.config.latency_fixer() == Some(fixer),
        bitrate.config.mode is ConstantMbps || (bitrate.config.mode == BitrateMode::Adaptive(
            adaptive,
        ) && adaptive.decoder_latency_fixer is Disabled) ==> bitrate.reaction(
            frame.timestamp,
            frame.network_latency,
            frame.decoder_latency,
        ).limit_multiplier_bits is None,
{
}

/// The encoder gets parameters whenever an update is needed, at any time, and whenever more than a
/// second has passed since it last got some. Otherwise it gets none.
pub proof fn law_parameters_come_when_needed_and_every_second(bitrate: BitrateModel, now: Instant)
    ensures
        bitrate.update_needed ==> bitrate.update_is_due(now),
        now.nanos > bitrate.last_update.nanos + 1_000_000_000 ==> bitrate.update_is_due(now),
        !bitrate.update_needed && now.nanos <= bitrate.last_update.nanos + 1_000_000_000
            ==> !bitrate.update_is_due(now),
{
}

/// After the encoder got parameters it gets no others for a second, unless an update is needed.
/// Asking for parameters changes nothing else, and nothing at all where there are none.
pub proof fn law_parameters_are_a_second_apart(bitrate: BitrateModel, first: Instant, next: Instant)
    ensures
        bitrate.update_is_due(first) && !bitrate.update_needed ==> (bitrate.after_params(
            first,
        ).update_is_due(next) <==> next.nanos > first.nanos + 1_000_000_000),
        bitrate.update_is_due(first) ==> bitrate.after_params(first) == (BitrateModel {
            last_update: first,
            ..bitrate
        }),
        !bitrate.update_is_due(first) ==> bitrate.after_params(first) == bitrate,
{
}

/// An update that is needed stays needed. It is in the beginning, so that whatever calls were made
/// since, the encoder gets parameters at any time.
pub proof fn law_encoder_always_gets_parameters(
    config: BitrateConfig,
    max_history_size: usize,
    nominal_framerate_bits: u32,
    start: Instant,
    calls: Seq<BitrateCall>,
    now: Instant,
)
    ensures
        after_calls(
            BitrateModel::initial(config, max_history_size, nominal_framerate_bits, start),
            calls,
        ).update_is_due(now),
{
    let initial = BitrateModel::initial(config, max_history_size, nominal_framerate_bits, start);
    lemma_update_stays_needed(initial, calls);
}

proof fn lemma_update_stays_needed(bitrate: BitrateModel, calls: Seq<BitrateCall>)
    requires
        bitrate.update_needed,
    ensures
        after_calls(bitrate, calls).update_needed,
    decreases calls.len(),
{
    if calls.len() > 0 {
        lemma_update_stays_needed(bitrate, calls.drop_last());
    }
}

/// When frames were presented.
pub open spec fn presentations_in(calls: Seq<BitrateCall>) -> Seq<Instant>
    decreases calls.len(),
{
    if calls.len() == 0 {
        Seq::empty()
    } else {
        match calls.last() {
            BitrateCall::FramePresent { now } => presentations_in(calls.drop_last()).push(now),
            _ => presentations_in(calls.drop_last()),
        }
    }
}

/// Whatever calls were made before, and where the frame rate is measured, a frame adds the time
/// since the frame before it to the intervals. The start stands in for a frame before the first
/// one. Where the frame rate is fixed, the intervals stay as they are.
pub proof fn law_intervals_are_between_frames(
    config: BitrateConfig,
    max_history_size: usize,
    nominal_framerate_bits: u32,
    start: Instant,
    calls: Seq<BitrateCall>,
    now: Instant,
)
    ensures
        ({
            let initial = BitrateModel::initial(
                config,
                max_history_size,
                nominal_framerate_bits,
                start,
            );
            let before = after_calls(initial, calls);
            let after = before.after_present(now);
            let earlier = if presentations_in(calls).len() == 0 {
                start
            } else {
                presentations_in(calls).last()
            };
            let interval = if now.nanos > earlier.nanos {
                now.nanos - earlier.nanos
            } else {
                0
            };
            &&& before.last_frame == earlier
            &&& before.config == config
            &&& config.adapt_to_framerate is Enabled ==> after.frame_intervals
                == before.frame_intervals.with_sample(interval as nat)
            &&& config.adapt_to_framerate is Disabled ==> after.frame_intervals
                == before.frame_intervals
        }),
    decreases calls.len(),
{
    if calls.len() > 0 {
        law_intervals_are_between_frames(
            config,
            max_history_size,
            nominal_framerate_bits,
            start,
            calls.drop_last(),
            now,
        );
    }
}

/// An interval that is too far from the average is the first one of a new average, and calls for an
/// update. One that is not changes nothing.
pub proof fn law_deviating_interval_starts_anew(
    bitrate: BitrateModel,
    interval: nat,
    deviates: bool,
)
    ensures
        ({
            let after = bitrate.after_interval(interval, deviates);
            if deviates {
                &&& after.frame_intervals.samples == seq![interval]
                &&& after.frame_intervals.max_history_size == bitrate.max_history_size
                &&& after.update_needed
                &&& after == (BitrateModel {
                    frame_intervals: after.frame_intervals,
                    update_needed: true,
                    ..bitrate
                })
            } else {
                after == bitrate
            }
        }),
{
}

/// The samples of the bitrate that were submitted.
pub open spec fn samples_in(calls: Seq<BitrateCall>) -> Seq<u32>
    decreases calls.len(),
{
    if calls.len() == 0 {
        Seq::empty()
    } else {
        match calls.last() {
            BitrateCall::SubmitBitrate { bitrate_bits } => samples_in(calls.drop_last()).push(
                bitrate_bits,
            ),
            _ => samples_in(calls.drop_last()),
        }
    }
}

/// The limits of the bitrate that were set.
pub open spec fn limits_in(calls: Seq<BitrateCall>) -> Seq<u32>
    decreases calls.len(),
{
    if calls.len() == 0 {
        Seq::empty()
    } else {
        match calls.last() {
            BitrateCall::LimitBitrate { bitrate_bits } => limits_in(calls.drop_last()).push(
                bitrate_bits,
            ),
            _ => limits_in(calls.drop_last()),
        }
    }
}

/// Whatever calls were made before, the window of bitrates got the samples that were submitted, one
/// after the other, and the largest bitrate is the limit that was set last.
pub proof fn law_bitrates_are_those_submitted(
    config: BitrateConfig,
    max_history_size: usize,
    nominal_framerate_bits: u32,
    start: Instant,
    calls: Seq<BitrateCall>,
)
    ensures
        ({
            let after = after_calls(
                BitrateModel::initial(config, max_history_size, nominal_framerate_bits, start),
                calls,
            );
            &&& after.bitrates == with_samples(
                Window { samples: seq![INITIAL_BITRATE_BITS], max_history_size },
                samples_in(calls),
            )
            &&& after.dynamic_max_bitrate_bits == if limits_in(calls).len() == 0 {
                MAX_BITRATE_BITS
            } else {
                limits_in(calls).last()
            }
        }),
    decreases calls.len(),
{
    if calls.len() > 0 {
        let before = calls.drop_last();
        law_bitrates_are_those_submitted(
            config,
            max_history_size,
            nominal_framerate_bits,
            start,
            before,
        );
        if let BitrateCall::SubmitBitrate { bitrate_bits } = calls.last() {
            assert(samples_in(before).push(bitrate_bits).drop_last() =~= samples_in(before));
        }
    }
}

/// The size of a frame, in bits, is the one that was first reported for its timestamp. The sizes
/// before it are given up, and those after it are kept.
pub proof fn law_size_is_that_of_the_frame(bitrate: BitrateModel, frame: FrameLatencies, i: int)
    requires
        0 <= i < bitrate.packet_sizes_bits.len(),
        bitrate.packet_sizes_bits[i].0 == frame.timestamp,
        forall|j: int|
            0 <= j < i ==> (#[trigger] bitrate.packet_sizes_bits[j]).0 != frame.timestamp,
        frame.network_latency > 0,
    ensures
        bitrate.reaction(
            frame.timestamp,
            frame.network_latency,
            frame.decoder_latency,
        ).size_bits == Some(bitrate.packet_sizes_bits[i].1),
        bitrate.after_latencies(
            frame.timestamp,
            frame.network_latency,
            frame.decoder_latency,
        ).packet_sizes_bits == bitrate.packet_sizes_bits.skip(i + 1),
{
    let sizes = bitrate.packet_sizes_bits;
    law_reported_size_is_found(sizes, frame.timestamp, i);
    assert(sizes.skip(i).skip(1) =~= sizes.skip(i + 1));
}

/// A frame that no size was reported for has none, and the sizes that were reported are given up. A
/// frame that was not on the network changes nothing and calls for nothing.
pub proof fn law_frame_without_size_has_none(bitrate: BitrateModel, frame: FrameLatencies)
    ensures
        ({
            let reaction = bitrate.reaction(
                frame.timestamp,
                frame.network_latency,
                frame.decoder_latency,
            );
            let after = bitrate.after_latencies(
                frame.timestamp,
                frame.network_latency,
                frame.decoder_latency,
            );
            &&& frame.network_latency > 0 && (forall|j: int|
                0 <= j < bitrate.packet_sizes_bits.len() ==> (
                #[trigger] bitrate.packet_sizes_bits[j]).0 != frame.timestamp)
                ==> reaction.size_bits is None && after.packet_sizes_bits.len() == 0
            &&& frame.network_latency == 0 ==> reaction.size_bits is None
                && reaction.limit_multiplier_bits is None && after == bitrate
        }),
{
    if forall|j: int|
        0 <= j < bitrate.packet_sizes_bits.len() ==> (#[trigger] bitrate.packet_sizes_bits[j]).0
            != frame.timestamp {
        lemma_no_size_is_found(bitrate.packet_sizes_bits, frame.timestamp);
    }
}

proof fn lemma_no_size_is_found(sizes: Seq<(nat, usize)>, timestamp: nat)
    requires
        forall|j: int| 0 <= j < sizes.len() ==> (#[trigger] sizes[j]).0 != timestamp,
    ensures
        sizes_from(sizes, timestamp).len() == 0,
    decreases sizes.len(),
{
    if sizes.len() > 0 {
        let rest = sizes.skip(1);
        assert(sizes[0].0 != timestamp);
        assert forall|j: int| 0 <= j < rest.len() implies (#[trigger] rest[j]).0 != timestamp by {
            assert(rest[j] == sizes[j + 1]);
        }
        lemma_no_size_is_found(rest, timestamp);
    }
}

/// A size that is reported comes after those that were reported before, in bits.
pub proof fn law_reported_size_comes_last(
    bitrate: BitrateModel,
    timestamp: nat,
    size_bytes: usize,
)
    requires
        size_bytes * 8 <= usize::MAX,
    ensures
        ({
            let after = bitrate.after_size(timestamp, size_bytes);
            &&& after.packet_sizes_bits.len() == bitrate.packet_sizes_bits.len() + 1
            &&& after.packet_sizes_bits.last().0 == timestamp
            &&& after.packet_sizes_bits.last().1 == 8 * size_bytes
            &&& after.packet_sizes_bits.drop_last() == bitrate.packet_sizes_bits
        }),
{
    assert(bitrate.after_size(timestamp, size_bytes).packet_sizes_bits.drop_last()
        =~= bitrate.packet_sizes_bits);
}

/// What the parameters are worked out from is what the settings say, with the averages and the
/// largest bitrate as they are.
pub proof fn law_query_says_what_the_settings_say(
    query: EncoderQuery,
    bitrate: BitrateModel,
    mbps: u64,
    adaptive: AdaptiveBitrate,
)
    requires
        query.is_of(bitrate),
        1 <= bitrate.network_latencies.samples.len() <= u32::MAX,
        1 <= bitrate.frame_intervals.samples.len() <= u32::MAX,
    ensures
        bitrate.config.mode == BitrateMode::ConstantMbps(mbps) ==> query.bitrate
            == BitrateQuery::ConstantMbps(mbps),
        bitrate.config.mode == BitrateMode::Adaptive(adaptive) ==> {
            &&& query.bitrate is Adaptive
            &&& query.bitrate->saturation_multiplier_bits == adaptive.saturation_multiplier_bits
            &&& query.bitrate->max_bitrate_mbps == adaptive.max_bitrate_mbps
            &&& query.bitrate->min_bitrate_mbps == adaptive.min_bitrate_mbps
            &&& query.bitrate->max_network_latency_ms == adaptive.max_network_latency_ms
            &&& query.bitrate->dynamic_max_bitrate_bits == bitrate.dynamic_max_bitrate_bits
            &&& duration_nanos(query.bitrate->network_latency_average)
                == crate::average::sum(bitrate.network_latencies.samples)
                / bitrate.network_latencies.samples.len()
        },
        bitrate.config.adapt_to_framerate is Enabled ==> query.framerate is Measured
            && duration_nanos(query.framerate->interval_average) == crate::average::sum(
            bitrate.frame_intervals.samples,
        ) / bitrate.frame_intervals.samples.len(),
        bitrate.config.adapt_to_framerate is Disabled ==> query.framerate
            == (FramerateQuery::Nominal { framerate_bits: bitrate.nominal_framerate_bits }),
{
}

/// Each call changes only what it is about. What the settings say, and the network latencies, stay
/// as they are.
pub proof fn law_calls_change_only_their_own(bitrate: BitrateModel, call: BitrateCall)
    ensures
        ({
            let after = after_call(bitrate, call);
            &&& after.config == bitrate.config
            &&& after.nominal_framerate_bits == bitrate.nominal_framerate_bits
            &&& after.max_history_size == bitrate.max_history_size
            &&& after.network_latencies == bitrate.network_latencies
            &&& !(call is FramePresent) && !(call is SettleInterval) ==> after.frame_intervals
                == bitrate.frame_intervals
            &&& !(call is FramePresent) ==> after.last_frame == bitrate.last_frame
            &&& !(call is EncodedFrameSize) && !(call is Latencies) ==> after.packet_sizes_bits
                == bitrate.packet_sizes_bits
            &&& !(call is Latencies) ==> after.decoder_latency_overstep_count
                == bitrate.decoder_latency_overstep_count
            &&& !(call is SubmitBitrate) ==> after.bitrates == bitrate.bitrates
            &&& !(call is LimitBitrate) ==> after.dynamic_max_bitrate_bits
                == bitrate.dynamic_max_bitrate_bits
            &&& !(call is EncoderParams) ==> after.last_update == bitrate.last_update
            &&& !(call is SettleInterval) && !(call is Latencies) ==> after.update_needed
                == bitrate.update_needed
        }),
{
}

/// In the beginning the averages have a single sample: 16 milliseconds for the frame interval, and
/// 5 for the network latency. Nothing has been reported, and the bitrate is not limited.
pub proof fn law_nothing_is_reported_in_the_beginning(
    config: BitrateConfig,
    max_history_size: usize,
    nominal_framerate_bits: u32,
    now: Instant,
)
    ensures
        ({
            let initial = BitrateModel::initial(
                config,
                max_history_size,
                nominal_framerate_bits,
                now,
            );
            &&& initial.config == config
            &&& initial.nominal_framerate_bits == nominal_framerate_bits
            &&& initial.max_history_size == max_history_size
            &&& initial.frame_intervals.samples == seq![16_000_000nat]
            &&& initial.frame_intervals.max_history_size == max_history_size
            &&& initial.network_latencies.samples == seq![5_000_000nat]
            &&& initial.network_latencies.max_history_size == max_history_size
            &&& initial.packet_sizes_bits.len() == 0
            &&& initial.decoder_latency_overstep_count == 0
            &&& initial.last_frame == now
            &&& initial.last_update == now
        }),
{
}

} // verus!
