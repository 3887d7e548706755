//! Deciding when the encoder gets a new bitrate and a new frame rate, and what they are worked
//! out from.

use crate::average::{
    average_nanos, has_average, lemma_window_nanos, sum, window_nanos, SlidingWindowAverage, Window,
};
use crate::time::{duration_nanos, from_millis, nanos_since, Instant};
use std::collections::VecDeque;
use std::time::Duration;
use vstd::prelude::*;

verus! {

/// How often the encoder gets new parameters, in nanoseconds.
pub const UPDATE_INTERVAL_NANOS: i64 = 1_000_000_000;

/// The bits of the single precision number 30 000 000.
pub const INITIAL_BITRATE_BITS: u32 = 0x4be4_e1c0;

/// The bits of the largest single precision number.
pub const MAX_BITRATE_BITS: u32 = 0x7f7f_ffff;

/// A setting that can be turned off.
#[derive(Clone, Copy, Debug)]
pub enum Switch<T> {
    Disabled,
    Enabled(T),
}

impl<T> Switch<T> {
    pub fn enabled(&self) -> (enabled: bool)
        ensures
            enabled == (self is Enabled),
    {
        match self {
            Switch::Enabled(_) => true,
            Switch::Disabled => false,
        }
    }
}

/// When a frame interval is so far from the average that the average starts anew.
#[derive(Clone, Copy, Debug)]
pub struct AdaptToFramerate {
    pub framerate_reset_threshold_multiplier_bits: u32,
}

/// When the decoder has fallen so far behind that the bitrate is limited.
#[derive(Clone, Copy, Debug)]
pub struct DecoderLatencyFixer {
    pub max_decoder_latency_ms: u64,
    pub latency_overstep_frames: u64,
    pub latency_overstep_multiplier_bits: u32,
}

/// How the bitrate follows from what the network does.
#[derive(Clone, Copy, Debug)]
pub struct AdaptiveBitrate {
    pub saturation_multiplier_bits: u32,
    pub max_bitrate_mbps: Switch<u64>,
    pub min_bitrate_mbps: Switch<u64>,
    pub max_network_latency_ms: Switch<u64>,
    pub decoder_latency_fixer: Switch<DecoderLatencyFixer>,
}

#[derive(Clone, Copy, Debug)]
pub enum BitrateMode {
    ConstantMbps(u64),
    Adaptive(AdaptiveBitrate),
}

#[derive(Clone, Copy, Debug)]
pub struct BitrateConfig {
    pub mode: BitrateMode,
    pub adapt_to_framerate: Switch<AdaptToFramerate>,
}

impl BitrateConfig {
    /// What limits the bitrate when the decoder falls behind.
    pub open spec fn latency_fixer(self) -> Option<DecoderLatencyFixer> {
        match self.mode {
            BitrateMode::Adaptive(
                AdaptiveBitrate { decoder_latency_fixer: Switch::Enabled(fixer), .. },
            ) => Some(fixer),
            _ => None,
        }
    }
}

/// What the encoder parameters are worked out from, with lengths of time in nanoseconds.
pub struct BitrateModel {
    pub config: BitrateConfig,
    pub nominal_framerate_bits: u32,
    pub max_history_size: usize,
    pub frame_intervals: Window<nat>,
    pub packet_sizes_bits: Seq<(nat, usize)>,
    pub network_latencies: Window<nat>,
    pub bitrates: Window<u32>,
    pub decoder_latency_overstep_count: usize,
    pub last_frame: Instant,
    pub last_update: Instant,
    pub dynamic_max_bitrate_bits: u32,
    pub update_needed: bool,
}

impl BitrateModel {
    /// The windows are well formed, and the network latencies have an average.
    pub open spec fn wf(self) -> bool {
        &&& self.frame_intervals.wf()
        &&& self.frame_intervals.max_history_size == self.max_history_size
        &&& self.network_latencies.wf()
        &&& self.network_latencies.max_history_size == self.max_history_size
        &&& has_average(self.network_latencies.samples)
        &&& self.bitrates.wf()
        &&& self.bitrates.max_history_size == self.max_history_size
    }
}

/// The question whether a frame interval is far from the average.
#[derive(Clone, Copy)]
pub struct IntervalCheck {
    pub interval: Duration,
    /// The average before that interval.
    pub average: Duration,
    pub threshold_multiplier_bits: u32,
}

/// What the latencies of a frame call for.
#[derive(Clone, Copy)]
pub struct LatencyReaction {
    /// The size of the frame, if a sample of the bitrate can be taken from it.
    pub size_bits: Option<usize>,
    /// By how much the largest bitrate is to be lowered, if it is.
    pub limit_multiplier_bits: Option<u32>,
}

/// What the bitrate is worked out from.
#[derive(Clone, Copy)]
pub enum BitrateQuery {
    ConstantMbps(u64),
    Adaptive {
        saturation_multiplier_bits: u32,
        max_bitrate_mbps: Switch<u64>,
        min_bitrate_mbps: Switch<u64>,
        max_network_latency_ms: Switch<u64>,
        network_latency_average: Duration,
        dynamic_max_bitrate_bits: u32,
    },
}

/// What the frame rate is worked out from.
#[derive(Clone, Copy)]
pub enum FramerateQuery {
    Nominal { framerate_bits: u32 },
    Measured { interval_average: Duration },
}

/// What the encoder parameters are worked out from.
#[derive(Clone, Copy)]
pub struct EncoderQuery {
    pub bitrate: BitrateQuery,
    pub framerate: FramerateQuery,
}

/// Sizes that were reported for a timestamp, and what comes after: those before it are given up.
/// Without one for that timestamp, all are.
pub open spec fn sizes_from(sizes: Seq<(nat, usize)>, timestamp: nat) -> Seq<(nat, usize)>
    decreases sizes.len(),
{
    if sizes.len() == 0 || sizes[0].0 == timestamp {
        sizes
    } else {
        sizes_from(sizes.skip(1), timestamp)
    }
}

impl BitrateModel {
    /// After the latencies of a frame are known, up to the samples that are taken from them.
    pub open spec fn after_latencies(
        self,
        timestamp: nat,
        network_latency: nat,
        decoder_latency: nat,
    ) -> BitrateModel {
        if network_latency == 0 {
            self
        } else {
            let sizes = sizes_from(self.packet_sizes_bits, timestamp);
            let rest = if sizes.len() == 0 {
                sizes
            } else {
                sizes.skip(1)
            };
            let popped = BitrateModel { packet_sizes_bits: rest, ..self };
            match self.config.latency_fixer() {
                Some(fixer) => if decoder_latency <= fixer.max_decoder_latency_ms * 1_000_000 {
                    BitrateModel { decoder_latency_overstep_count: 0, ..popped }
                } else if self.limit_is_due(fixer) {
                    BitrateModel {
                        decoder_latency_overstep_count: 0,
                        update_needed: true,
                        ..popped
                    }
                } else {
                    BitrateModel {
                        decoder_latency_overstep_count: (self.decoder_latency_overstep_count
                            + 1) as usize,
                        ..popped
                    }
                },
                None => popped,
            }
        }
    }

    /// One more frame that takes the decoder too long is one too many.
    pub open spec fn limit_is_due(self, fixer: DecoderLatencyFixer) -> bool {
        self.decoder_latency_overstep_count + 1 == fixer.latency_overstep_frames as usize
    }

    /// What the latencies of a frame call for.
    pub open spec fn reaction(
        self,
        timestamp: nat,
        network_latency: nat,
        decoder_latency: nat,
    ) -> LatencyReaction {
        if network_latency == 0 {
            LatencyReaction { size_bits: None, limit_multiplier_bits: None }
        } else {
            let sizes = sizes_from(self.packet_sizes_bits, timestamp);
            LatencyReaction {
                size_bits: if sizes.len() == 0 {
                    None
                } else {
                    Some(sizes[0].1)
                },
                limit_multiplier_bits: match self.config.latency_fixer() {
                    Some(fixer) => if decoder_latency > fixer.max_decoder_latency_ms * 1_000_000
                        && self.limit_is_due(fixer) {
                        Some(fixer.latency_overstep_multiplier_bits)
                    } else {
                        None
                    },
                    None => None,
                },
            }
        }
    }

    /// The encoder gets new parameters.
    pub open spec fn update_is_due(self, now: Instant) -> bool {
        self.update_needed || self.last_update.nanos + UPDATE_INTERVAL_NANOS < now.nanos
    }

    /// What is known in the beginning.
    pub open spec fn initial(
        config: BitrateConfig,
        max_history_size: usize,
        nominal_framerate_bits: u32,
        now: Instant,
    ) -> BitrateModel {
        BitrateModel {
            config,
            nominal_framerate_bits,
            max_history_size,
            frame_intervals: Window { samples: seq![16_000_000nat], max_history_size },
            packet_sizes_bits: Seq::empty(),
            network_latencies: Window { samples: seq![5_000_000nat], max_history_size },
            bitrates: Window { samples: seq![INITIAL_BITRATE_BITS], max_history_size },
            decoder_latency_overstep_count: 0,
            last_frame: now,
            last_update: now,
            dynamic_max_bitrate_bits: MAX_BITRATE_BITS,
            update_needed: true,
        }
    }

    /// After a frame was presented.
    pub open spec fn after_present(self, now: Instant) -> BitrateModel {
        match self.config.adapt_to_framerate {
            Switch::Enabled(_) => BitrateModel {
                last_frame: now,
                frame_intervals: self.frame_intervals.with_sample(
                    nanos_since(now, self.last_frame),
                ),
                ..self
            },
            Switch::Disabled => BitrateModel { last_frame: now, ..self },
        }
    }

    /// After a frame interval was held against the average.
    pub open spec fn after_interval(self, interval: nat, deviates: bool) -> BitrateModel {
        if deviates {
            BitrateModel {
                frame_intervals: Window {
                    samples: seq![interval],
                    max_history_size: self.max_history_size,
                },
                update_needed: true,
                ..self
            }
        } else {
            self
        }
    }

    /// After the size of a frame was reported.
    pub open spec fn after_size(self, timestamp: nat, size_bytes: usize) -> BitrateModel {
        BitrateModel {
            packet_sizes_bits: self.packet_sizes_bits.push(
                (timestamp, (size_bytes * 8) as usize),
            ),
            ..self
        }
    }

    /// After a sample of the bitrate was taken.
    pub open spec fn after_sample(self, bitrate_bits: u32) -> BitrateModel {
        BitrateModel { bitrates: self.bitrates.with_sample(bitrate_bits), ..self }
    }

    /// After the bitrate was limited.
    pub open spec fn after_limit(self, bitrate_bits: u32) -> BitrateModel {
        BitrateModel { dynamic_max_bitrate_bits: bitrate_bits, ..self }
    }

    /// After the encoder was looked after.
    pub open spec fn after_params(self, now: Instant) -> BitrateModel {
        if self.update_is_due(now) {
            BitrateModel { last_update: now, ..self }
        } else {
            self
        }
    }
}

impl EncoderQuery {
    /// What the encoder parameters are worked out from.
    pub open spec fn is_of(self, bitrate: BitrateModel) -> bool {
        &&& match bitrate.config.mode {
            BitrateMode::ConstantMbps(mbps) => self.bitrate == BitrateQuery::ConstantMbps(mbps),
            BitrateMode::Adaptive(adaptive) => {
                &&& self.bitrate is Adaptive
                &&& self.bitrate->saturation_multiplier_bits == adaptive.saturation_multiplier_bits
                &&& self.bitrate->max_bitrate_mbps == adaptive.max_bitrate_mbps
                &&& self.bitrate->min_bitrate_mbps == adaptive.min_bitrate_mbps
                &&& self.bitrate->max_network_latency_ms == adaptive.max_network_latency_ms
                &&& duration_nanos(self.bitrate->network_latency_average) == average_nanos(
                    bitrate.network_latencies.samples,
                )
                &&& self.bitrate->dynamic_max_bitrate_bits == bitrate.dynamic_max_bitrate_bits
            },
        }
        &&& match bitrate.config.adapt_to_framerate {
            Switch::Enabled(_) => {
                &&& self.framerate is Measured
                &&& duration_nanos(self.framerate->interval_average) == average_nanos(
                    bitrate.frame_intervals.samples,
                )
            },
            Switch::Disabled => self.framerate == (FramerateQuery::Nominal {
                framerate_bits: bitrate.nominal_framerate_bits,
            }),
        }
    }
}

/// Decides when the encoder gets a new bitrate and a new frame rate.
pub struct BitrateManager {
    config: BitrateConfig,
    nominal_framerate_bits: u32,
    max_history_size: usize,
    frame_interval_average: SlidingWindowAverage<Duration>,
    packet_sizes_bits_history: VecDeque<(Duration, usize)>,
    network_latency_average: SlidingWindowAverage<Duration>,
    bitrate_average: SlidingWindowAverage<u32>,
    decoder_latency_overstep_count: usize,
    last_frame_instant: Instant,
    last_update_instant: Instant,
    dynamic_max_bitrate_bits: u32,
    update_needed: bool,
}

/// Sizes with their timestamps in nanoseconds.
pub open spec fn sizes_nanos(sizes: Seq<(Duration, usize)>) -> Seq<(nat, usize)> {
    sizes.map_values(|size: (Duration, usize)| (duration_nanos(size.0), size.1))
}

impl View for BitrateManager {
    type V = BitrateModel;

    closed spec fn view(&self) -> BitrateModel {
        BitrateModel {
            config: self.config,
            nominal_framerate_bits: self.nominal_framerate_bits,
            max_history_size: self.max_history_size,
            frame_intervals: window_nanos(self.frame_interval_average@),
            packet_sizes_bits: sizes_nanos(self.packet_sizes_bits_history@),
            network_latencies: window_nanos(self.network_latency_average@),
            bitrates: self.bitrate_average@,
            decoder_latency_overstep_count: self.decoder_latency_overstep_count,
            last_frame: self.last_frame_instant,
            last_update: self.last_update_instant,
            dynamic_max_bitrate_bits: self.dynamic_max_bitrate_bits,
            update_needed: self.update_needed,
        }
    }
}

impl BitrateManager {
    pub fn new(
        config: BitrateConfig,
        max_history_size: usize,
        nominal_framerate_bits: u32,
        now: Instant,
    ) -> (manager: BitrateManager)
        ensures
            manager@.wf(),
            manager@ == BitrateModel::initial(
                config,
                max_history_size,
                nominal_framerate_bits,
                now,
            ),
    {
        let manager = BitrateManager {
            config,
            nominal_framerate_bits,
            max_history_size,
            frame_interval_average: SlidingWindowAverage::new(from_millis(16), max_history_size),
            packet_sizes_bits_history: VecDeque::new(),
            network_latency_average: SlidingWindowAverage::new(from_millis(5), max_history_size),
            bitrate_average: SlidingWindowAverage::new(INITIAL_BITRATE_BITS, max_history_size),
            decoder_latency_overstep_count: 0,
            last_frame_instant: now,
            last_update_instant: now,
            dynamic_max_bitrate_bits: MAX_BITRATE_BITS,
            update_needed: true,
        };
        proof {
            assert(manager@.frame_intervals.samples =~= seq![16_000_000nat]);
            let samples = manager@.network_latencies.samples;
            assert(samples =~= seq![5_000_000nat]);
            assert(samples.drop_last() =~= Seq::<nat>::empty());
            assert(sum(samples.drop_last()) == 0);
            assert(sum(samples) == 5_000_000);
            assert(manager@.packet_sizes_bits =~= Seq::empty());
        }
        manager
    }

    /// Tells whether the frame intervals have an average.
    pub fn can_average_intervals(&self) -> (possible: bool)
        ensures
            possible == has_average(self@.frame_intervals.samples),
    {
        self.frame_interval_average.can_average()
    }

    /// Takes note of a frame, from which the frame interval is measured. Where the frame rate is
    /// measured, the interval has to be held against the average next: see `settle_interval`.
    pub fn report_frame_present(&mut self, now: Instant) -> (check: Option<IntervalCheck>)
        requires
            old(self)@.wf(),
            old(self)@.config.adapt_to_framerate is Enabled ==> has_average(
                old(self)@.frame_intervals.samples,
            ),
        ensures
            match old(self)@.config.adapt_to_framerate {
                Switch::Enabled(config) => {
                    &&& check is Some
                    &&& duration_nanos(check->0.interval) == nanos_since(
                        now,
                        old(self)@.last_frame,
                    )
                    &&& duration_nanos(check->0.average) == average_nanos(
                        old(self)@.frame_intervals.samples,
                    )
                    &&& check->0.threshold_multiplier_bits
                        == config.framerate_reset_threshold_multiplier_bits
                },
                Switch::Disabled => check is None,
            },
            final(self)@ == old(self)@.after_present(now),
            final(self)@.wf(),
    {
        let interval = now.saturating_duration_since(self.last_frame_instant);
        self.last_frame_instant = now;
        match self.config.adapt_to_framerate {
            Switch::Enabled(config) => {
                let average = self.frame_interval_average.get_average();
                let ghost before = self.frame_interval_average@;
                self.frame_interval_average.submit_sample(interval);
                proof {
                    lemma_window_nanos(before, interval);
                }
                Some(
                    IntervalCheck {
                        interval,
                        average,
                        threshold_multiplier_bits: config.framerate_reset_threshold_multiplier_bits,
                    },
                )
            },
            Switch::Disabled => None,
        }
    }

    /// An interval that is too far from the average starts a new average, and the encoder gets
    /// new parameters.
    pub fn settle_interval(&mut self, interval: Duration, deviates: bool)
        requires
            old(self)@.wf(),
        ensures
            final(self)@ == old(self)@.after_interval(duration_nanos(interval), deviates),
            final(self)@.wf(),
    {
        if deviates {
            self.frame_interval_average = SlidingWindowAverage::new(
                interval,
                self.max_history_size,
            );
            self.update_needed = true;
            assert(self@.frame_intervals.samples =~= seq![duration_nanos(interval)]);
        }
    }

    pub fn report_encoded_frame_size(&mut self, timestamp: Duration, size_bytes: usize)
        requires
            old(self)@.wf(),
            size_bytes * 8 <= usize::MAX,
        ensures
            final(self)@ == old(self)@.after_size(duration_nanos(timestamp), size_bytes),
            final(self)@.wf(),
    {
        let ghost before = self.packet_sizes_bits_history@;
        self.packet_sizes_bits_history.push_back((timestamp, size_bytes * 8));
        assert(sizes_nanos(self.packet_sizes_bits_history@) =~= sizes_nanos(before).push(
            (duration_nanos(timestamp), (size_bytes * 8) as usize),
        ));
    }

    /// Tells whether one more frame that takes the decoder too long can be counted.
    pub fn can_count_overstep(&self) -> (possible: bool)
        ensures
            possible == (self@.decoder_latency_overstep_count < usize::MAX),
    {
        self.decoder_latency_overstep_count < usize::MAX
    }

    /// Gives up the sizes that were reported for other timestamps, and takes the one for this.
    fn take_size(&mut self, timestamp: Duration) -> (size_bits: Option<usize>)
        ensures
            ({
                let sizes = sizes_from(
                    old(self)@.packet_sizes_bits,
                    duration_nanos(timestamp),
                );
                &&& size_bits == if sizes.len() == 0 {
                    None
                } else {
                    Some(sizes[0].1)
                }
                &&& final(self)@ == (BitrateModel {
                    packet_sizes_bits: if sizes.len() == 0 {
                        sizes
                    } else {
                        sizes.skip(1)
                    },
                    ..old(self)@
                })
            }),
    {
        let wanted: u128 = timestamp.as_nanos();
        let ghost initial = self@;
        while self.packet_sizes_bits_history.len() > 0
            invariant
                wanted == duration_nanos(timestamp),
                initial == old(self)@,
                sizes_from(self@.packet_sizes_bits, wanted as nat) == sizes_from(
                    initial.packet_sizes_bits,
                    wanted as nat,
                ),
                self@ == (BitrateModel { packet_sizes_bits: self@.packet_sizes_bits, ..initial }),
            decreases self.packet_sizes_bits_history@.len(),
        {
            let ghost before = self.packet_sizes_bits_history@;
            assert(sizes_nanos(before)[0] == (duration_nanos(before[0].0), before[0].1));
            if let Some((timestamp_, size_bits)) = self.packet_sizes_bits_history.pop_front() {
                proof {
                    assert(sizes_nanos(self.packet_sizes_bits_history@) =~= sizes_nanos(
                        before,
                    ).skip(1));
                }
                if timestamp_.as_nanos() == wanted {
                    assert(sizes_from(sizes_nanos(before), wanted as nat) == sizes_nanos(before));
                    return Some(size_bits);
                }
            }
        }
        None
    }

    /// Takes note of the latencies of a frame. The latency of the decoder tells when the bitrate
    /// has to be limited so that the decoder can follow. The samples that are called for are to
    /// be submitted next: see `submit_bitrate` and `limit_bitrate`.
    pub fn report_frame_latencies(
        &mut self,
        timestamp: Duration,
        network_latency: Duration,
        decoder_latency: Duration,
    ) -> (reaction: LatencyReaction)
        requires
            old(self)@.wf(),
            old(self)@.decoder_latency_overstep_count < usize::MAX,
        ensures
            reaction == old(self)@.reaction(
                duration_nanos(timestamp),
                duration_nanos(network_latency),
                duration_nanos(decoder_latency),
            ),
            final(self)@ == old(self)@.after_latencies(
                duration_nanos(timestamp),
                duration_nanos(network_latency),
                duration_nanos(decoder_latency),
            ),
            final(self)@.wf(),
    {
        if network_latency.as_nanos() == 0 {
            return LatencyReaction { size_bits: None, limit_multiplier_bits: None };
        }
        let size_bits = self.take_size(timestamp);
        let mut limit_multiplier_bits = None;
        if let BitrateMode::Adaptive(adaptive) = self.config.mode {
            if let Switch::Enabled(fixer) = adaptive.decoder_latency_fixer {
                if decoder_latency.as_nanos() > fixer.max_decoder_latency_ms as u128 * 1_000_000 {
                    self.decoder_latency_overstep_count += 1;
                    let frames: usize = fixer.latency_overstep_frames as usize;
                    if self.decoder_latency_overstep_count == frames {
                        limit_multiplier_bits = Some(fixer.latency_overstep_multiplier_bits);
                        self.update_needed = true;
                        self.decoder_latency_overstep_count = 0;
                    }
                } else {
                    self.decoder_latency_overstep_count = 0;
                }
            }
        }
        LatencyReaction { size_bits, limit_multiplier_bits }
    }

    /// Takes a sample of the bitrate, given by its bits.
    pub fn submit_bitrate(&mut self, bitrate_bits: u32)
        requires
            old(self)@.wf(),
        ensures
            final(self)@ == old(self)@.after_sample(bitrate_bits),
            final(self)@.wf(),
    {
        self.bitrate_average.submit_sample(bitrate_bits);
    }

    /// The samples of the bitrate, given by their bits, oldest first.
    pub fn bitrates(&self) -> (bitrates: &VecDeque<u32>)
        ensures
            bitrates@ == self@.bitrates.samples,
    {
        self.bitrate_average.samples()
    }

    /// The largest bitrate that the decoder can follow, given by its bits.
    pub fn dynamic_max_bitrate(&self) -> (bitrate_bits: u32)
        ensures
            bitrate_bits == self@.dynamic_max_bitrate_bits,
    {
        self.dynamic_max_bitrate_bits
    }

    /// Limits the bitrate.
    pub fn limit_bitrate(&mut self, bitrate_bits: u32)
        requires
            old(self)@.wf(),
        ensures
            final(self)@ == old(self)@.after_limit(bitrate_bits),
            final(self)@.wf(),
    {
        self.dynamic_max_bitrate_bits = bitrate_bits;
    }

    /// What the encoder parameters are to be worked out from, if the encoder gets new ones.
    pub fn get_encoder_params(&mut self, now: Instant) -> (query: Option<EncoderQuery>)
        requires
            old(self)@.wf(),
            old(self)@.config.adapt_to_framerate is Enabled ==> has_average(
                old(self)@.frame_intervals.samples,
            ),
        ensures
            old(self)@.update_is_due(now) ==> {
                &&& query is Some
                &&& query->0.is_of(old(self)@)
            },
            !old(self)@.update_is_due(now) ==> query is None,
            final(self)@ == old(self)@.after_params(now),
            final(self)@.wf(),
    {
        let next_update: i128 = self.last_update_instant.nanos as i128
            + UPDATE_INTERVAL_NANOS as i128;
        if self.update_needed || next_update < now.nanos as i128 {
            self.last_update_instant = now;
        } else {
            return None;
        }
        let bitrate = match self.config.mode {
            BitrateMode::ConstantMbps(bitrate_mbps) => BitrateQuery::ConstantMbps(bitrate_mbps),
            BitrateMode::Adaptive(adaptive) => {
                BitrateQuery::Adaptive {
                    saturation_multiplier_bits: adaptive.saturation_multiplier_bits,
                    max_bitrate_mbps: adaptive.max_bitrate_mbps,
                    min_bitrate_mbps: adaptive.min_bitrate_mbps,
                    max_network_latency_ms: adaptive.max_network_latency_ms,
                    network_latency_average: self.network_latency_average.get_average(),
                    dynamic_max_bitrate_bits: self.dynamic_max_bitrate_bits,
                }
            },
        };
        let framerate = if self.config.adapt_to_framerate.enabled() {
            FramerateQuery::Measured {
                interval_average: self.frame_interval_average.get_average(),
            }
        } else {
            FramerateQuery::Nominal { framerate_bits: self.nominal_framerate_bits }
        };
        Some(EncoderQuery { bitrate, framerate })
    }
}

/// The first size that was reported for a timestamp is the one that is found for it, and the
/// sizes after it are kept.
pub proof fn law_reported_size_is_found(sizes: Seq<(nat, usize)>, timestamp: nat, i: int)
    requires
        0 <= i < sizes.len(),
        sizes[i].0 == timestamp,
        forall|j: int| 0 <= j < i ==> (#[trigger] sizes[j]).0 != timestamp,
    ensures
        sizes_from(sizes, timestamp) == sizes.skip(i),
    decreases i,
{
    if i == 0 {
        assert(sizes.skip(0) =~= sizes);
    } else {
        assert(sizes[0].0 != timestamp);
        let rest = sizes.skip(1);
        assert forall|j: int| 0 <= j < i - 1 implies (#[trigger] rest[j]).0 != timestamp by {
            assert(rest[j] == sizes[j + 1]);
        }
        law_reported_size_is_found(rest, timestamp, i - 1);
        assert(rest.skip(i - 1) =~= sizes.skip(i));
    }
}

} // verus!
