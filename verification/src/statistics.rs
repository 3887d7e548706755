//! How long the frames take from tracking to display, and what is counted along the way.

use crate::average::{
    average_nanos, has_average, lemma_window_nanos, window_nanos, SlidingWindowAverage, Window,
};
use crate::packets::ClientStatistics;
use crate::time::{duration_nanos, from_nanos, is_duration, nanos_since, saturating_sub, Instant};
use std::collections::{HashMap, VecDeque};
use std::time::Duration;
use vstd::prelude::*;

verus! {

broadcast use vstd::std_specs::hash::group_hash_axioms;

/// How often a full report is made, in nanoseconds.
pub const FULL_REPORT_INTERVAL_NANOS: i64 = 500_000_000;

/// The shortest frame interval that frame rates are calculated from, in nanoseconds.
pub const MIN_FRAME_INTERVAL_NANOS: u128 = 1_000_000;

/// When a frame went through each stage.
#[derive(Clone, Copy)]
pub struct HistoryFrame {
    pub target_timestamp: Duration,
    pub tracking_received: Instant,
    pub frame_present: Instant,
    pub frame_composed: Instant,
    pub frame_encoded: Instant,
    pub total_pipeline_latency: Duration,
}

/// A frame, with lengths of time in nanoseconds.
pub struct FrameModel {
    pub target_timestamp: nat,
    pub tracking_received: Instant,
    pub frame_present: Instant,
    pub frame_composed: Instant,
    pub frame_encoded: Instant,
    pub total_pipeline_latency: nat,
}

impl View for HistoryFrame {
    type V = FrameModel;

    open spec fn view(&self) -> FrameModel {
        FrameModel {
            target_timestamp: duration_nanos(self.target_timestamp),
            tracking_received: self.tracking_received,
            frame_present: self.frame_present,
            frame_composed: self.frame_composed,
            frame_encoded: self.frame_encoded,
            total_pipeline_latency: duration_nanos(self.total_pipeline_latency),
        }
    }
}

impl FrameModel {
    /// A frame of which nothing is known but that there is one now.
    pub open spec fn at(target_timestamp: nat, now: Instant) -> FrameModel {
        FrameModel {
            target_timestamp,
            tracking_received: now,
            frame_present: now,
            frame_composed: now,
            frame_encoded: now,
            total_pipeline_latency: 0,
        }
    }

    /// The time from tracking to the frame that the game presents.
    pub open spec fn game_time(self) -> nat {
        nanos_since(self.frame_present, self.tracking_received)
    }

    /// The time that the compositor takes.
    pub open spec fn compositor_time(self) -> nat {
        nanos_since(self.frame_composed, self.frame_present)
    }

    /// The time that the encoder takes.
    pub open spec fn encoder_time(self) -> nat {
        nanos_since(self.frame_encoded, self.frame_composed)
    }
}

impl HistoryFrame {
    /// A frame of which nothing is known but that there is one now.
    pub fn default(now: Instant) -> (frame: HistoryFrame)
        ensures
            frame@ == FrameModel::at(0, now),
    {
        HistoryFrame {
            target_timestamp: from_nanos(0),
            tracking_received: now,
            frame_present: now,
            frame_composed: now,
            frame_encoded: now,
            total_pipeline_latency: from_nanos(0),
        }
    }
}

/// A history holds a frame for that timestamp.
pub open spec fn has_frame(history: Seq<FrameModel>, target_timestamp: nat) -> bool {
    exists|i: int|
        0 <= i < history.len() && (#[trigger] history[i]).target_timestamp == target_timestamp
}

/// The timestamps of the frames differ.
pub open spec fn timestamps_differ(history: Seq<FrameModel>) -> bool {
    forall|i: int, j: int|
        0 <= i < j < history.len() ==> (#[trigger] history[i]).target_timestamp != (
        #[trigger] history[j]).target_timestamp
}

/// The place of the frame for that timestamp.
pub open spec fn frame_index(history: Seq<FrameModel>, target_timestamp: nat) -> int {
    choose|i: int|
        0 <= i < history.len() && (#[trigger] history[i]).target_timestamp == target_timestamp
}

/// The history with another frame in the place of the one for the same timestamp.
pub open spec fn replaced(history: Seq<FrameModel>, frame: FrameModel) -> Seq<FrameModel> {
    history.update(frame_index(history, frame.target_timestamp), frame)
}

/// The frame for that timestamp.
pub open spec fn frame_of(history: Seq<FrameModel>, target_timestamp: nat) -> FrameModel {
    history[frame_index(history, target_timestamp)]
}

/// The history after a frame was first heard of. The newest frame comes first, and a history
/// that is full loses its oldest frame.
pub open spec fn with_tracking(
    history: Seq<FrameModel>,
    max_history_size: usize,
    target_timestamp: nat,
    now: Instant,
) -> Seq<FrameModel> {
    let frames = if has_frame(history, target_timestamp) {
        history
    } else {
        seq![FrameModel::at(target_timestamp, now)] + history
    };
    if frames.len() > max_history_size {
        frames.drop_last()
    } else {
        frames
    }
}

/// What is known of the frames and counted along the way.
pub struct StatisticsModel {
    pub history: Seq<FrameModel>,
    pub max_history_size: usize,
    pub last_full_report: Instant,
    pub last_frame_present: Instant,
    pub last_frame_present_interval: nat,
    pub video_packets_total: usize,
    pub video_packets_partial_sum: usize,
    pub video_bytes_total: usize,
    pub video_bytes_partial_sum: usize,
    pub packets_lost_total: usize,
    pub packets_lost_partial_sum: usize,
    pub battery_gauges: Map<u64, u32>,
    pub steamvr_pipeline_latency: nat,
    pub latencies: Window<nat>,
}

impl StatisticsModel {
    /// The history is not too long and has one frame for each timestamp; what was counted since
    /// the last full report is part of what was counted in all; and the window of latencies is
    /// well formed.
    pub open spec fn wf(self) -> bool {
        &&& self.history.len() <= self.max_history_size
        &&& timestamps_differ(self.history)
        &&& self.video_packets_partial_sum <= self.video_packets_total
        &&& self.video_bytes_partial_sum <= self.video_bytes_total
        &&& self.packets_lost_partial_sum <= self.packets_lost_total
        &&& self.latencies.wf()
        &&& self.latencies.max_history_size == self.max_history_size
    }
}

/// How long the stages of a frame took.
#[derive(Clone, Copy)]
pub struct GraphReport {
    pub total_pipeline_latency: Duration,
    pub game_time: Duration,
    pub server_compositor: Duration,
    pub encoder: Duration,
    pub network: Duration,
    pub decoder: Duration,
    pub decoder_queue: Duration,
    pub client_compositor: Duration,
    pub vsync_queue: Duration,
    /// The interval that the frame rate of the client is calculated from.
    pub client_frame_interval: Duration,
    /// The interval that the frame rate of the server is calculated from.
    pub server_frame_interval: Duration,
}

/// What was counted in all and since the last full report.
#[derive(Clone, Copy)]
pub struct FullReport {
    pub video_packets_total: usize,
    pub video_packets_partial_sum: usize,
    pub video_bytes_total: usize,
    pub video_bytes_partial_sum: usize,
    pub packets_lost_total: usize,
    pub packets_lost_partial_sum: usize,
    /// The bits of the battery levels, 0 where none was reported.
    pub battery_hmd: u32,
    pub battery_left: u32,
    pub battery_right: u32,
}

/// What is to be reported of a frame.
#[derive(Clone, Copy)]
pub struct FrameReport {
    pub full: Option<FullReport>,
    pub graph: GraphReport,
}

/// The devices whose battery levels are reported.
#[derive(Clone, Copy)]
pub struct BatteryDevices {
    pub head_id: u64,
    pub left_hand_id: u64,
    pub right_hand_id: u64,
}

/// What is left of `a` after `b`, and nothing if `b` is larger.
pub open spec fn left_of(a: nat, b: nat) -> nat {
    if b <= a {
        (a - b) as nat
    } else {
        0
    }
}

/// An interval that is not too short to calculate a frame rate from.
pub open spec fn at_least_min_interval(nanos: nat) -> nat {
    if nanos < MIN_FRAME_INTERVAL_NANOS {
        MIN_FRAME_INTERVAL_NANOS as nat
    } else {
        nanos
    }
}

/// The time that the known stages of a frame take, on the server and on the client.
pub open spec fn known_time(frame: FrameModel, stats: ClientStatistics) -> nat {
    frame.game_time() + frame.compositor_time() + frame.encoder_time() + duration_nanos(
        stats.video_decode,
    ) + duration_nanos(stats.video_decoder_queue) + duration_nanos(stats.rendering)
        + duration_nanos(stats.vsync_queue)
}

/// The time that a frame spends on the network, which is what is left of the whole after the
/// known stages.
pub open spec fn network_time(frame: FrameModel, stats: ClientStatistics) -> nat {
    left_of(duration_nanos(stats.total_pipeline_latency), known_time(frame, stats))
}

/// A battery level, and 0 where none was reported.
pub open spec fn gauge_of(gauges: Map<u64, u32>, device_id: u64) -> u32 {
    if gauges.contains_key(device_id) {
        gauges[device_id]
    } else {
        0
    }
}

impl StatisticsModel {
    /// Nothing is known yet.
    pub open spec fn initial(
        max_history_size: usize,
        steamvr_pipeline_latency: nat,
        now: Instant,
    ) -> StatisticsModel {
        StatisticsModel {
            history: Seq::empty(),
            max_history_size,
            last_full_report: now,
            last_frame_present: now,
            last_frame_present_interval: 0,
            video_packets_total: 0,
            video_packets_partial_sum: 0,
            video_bytes_total: 0,
            video_bytes_partial_sum: 0,
            packets_lost_total: 0,
            packets_lost_partial_sum: 0,
            battery_gauges: Map::empty(),
            steamvr_pipeline_latency,
            latencies: Window { samples: seq![0nat], max_history_size },
        }
    }

    /// After a frame was first heard of.
    pub open spec fn after_tracking(self, target_timestamp: nat, now: Instant) -> StatisticsModel {
        StatisticsModel {
            history: with_tracking(self.history, self.max_history_size, target_timestamp, now),
            ..self
        }
    }

    /// After the game has presented a frame.
    pub open spec fn after_present(self, target_timestamp: nat, then: Instant) -> StatisticsModel {
        if has_frame(self.history, target_timestamp) {
            StatisticsModel {
                history: replaced(
                    self.history,
                    FrameModel {
                        frame_present: then,
                        ..frame_of(self.history, target_timestamp)
                    },
                ),
                last_frame_present: then,
                last_frame_present_interval: nanos_since(then, self.last_frame_present),
                ..self
            }
        } else {
            self
        }
    }

    /// After a frame was composed.
    pub open spec fn after_composed(self, target_timestamp: nat, then: Instant) -> StatisticsModel {
        if has_frame(self.history, target_timestamp) {
            StatisticsModel {
                history: replaced(
                    self.history,
                    FrameModel {
                        frame_composed: then,
                        ..frame_of(self.history, target_timestamp)
                    },
                ),
                ..self
            }
        } else {
            self
        }
    }

    /// After a frame was encoded.
    pub open spec fn after_encoded(self, target_timestamp: nat, now: Instant) -> StatisticsModel {
        if has_frame(self.history, target_timestamp) {
            StatisticsModel {
                history: replaced(
                    self.history,
                    FrameModel { frame_encoded: now, ..frame_of(self.history, target_timestamp) },
                ),
                ..self
            }
        } else {
            self
        }
    }

    /// After a video packet was sent.
    pub open spec fn after_packet(self, bytes_count: usize) -> StatisticsModel {
        StatisticsModel {
            video_packets_total: (self.video_packets_total + 1) as usize,
            video_packets_partial_sum: (self.video_packets_partial_sum + 1) as usize,
            video_bytes_total: (self.video_bytes_total + bytes_count) as usize,
            video_bytes_partial_sum: (self.video_bytes_partial_sum + bytes_count) as usize,
            ..self
        }
    }

    /// After a packet was lost.
    pub open spec fn after_loss(self) -> StatisticsModel {
        StatisticsModel {
            packets_lost_total: (self.packets_lost_total + 1) as usize,
            packets_lost_partial_sum: (self.packets_lost_partial_sum + 1) as usize,
            ..self
        }
    }

    /// After a battery level was reported.
    pub open spec fn after_battery(self, device_id: u64, gauge_bits: u32) -> StatisticsModel {
        StatisticsModel {
            battery_gauges: self.battery_gauges.insert(device_id, gauge_bits),
            ..self
        }
    }

    /// A full report is made once in each interval.
    pub open spec fn full_report_is_due(self, now: Instant) -> bool {
        self.last_full_report.nanos + FULL_REPORT_INTERVAL_NANOS < now.nanos
    }

    /// The full report.
    pub open spec fn full_report(self, devices: BatteryDevices) -> FullReport {
        FullReport {
            video_packets_total: self.video_packets_total,
            video_packets_partial_sum: self.video_packets_partial_sum,
            video_bytes_total: self.video_bytes_total,
            video_bytes_partial_sum: self.video_bytes_partial_sum,
            packets_lost_total: self.packets_lost_total,
            packets_lost_partial_sum: self.packets_lost_partial_sum,
            battery_hmd: gauge_of(self.battery_gauges, devices.head_id),
            battery_left: gauge_of(self.battery_gauges, devices.left_hand_id),
            battery_right: gauge_of(self.battery_gauges, devices.right_hand_id),
        }
    }

    /// After a full report the counts start anew.
    pub open spec fn after_full_report(self) -> StatisticsModel {
        StatisticsModel {
            last_full_report: Instant {
                nanos: (self.last_full_report.nanos + FULL_REPORT_INTERVAL_NANOS) as i64,
            },
            video_packets_partial_sum: 0,
            video_bytes_partial_sum: 0,
            packets_lost_partial_sum: 0,
            ..self
        }
    }

    /// After the client has reported on a frame.
    pub open spec fn after_statistics(
        self,
        stats: ClientStatistics,
        now: Instant,
    ) -> StatisticsModel {
        let target_timestamp = duration_nanos(stats.target_timestamp);
        if has_frame(self.history, target_timestamp) {
            let frame = FrameModel {
                total_pipeline_latency: duration_nanos(stats.total_pipeline_latency),
                ..frame_of(self.history, target_timestamp)
            };
            let reported = StatisticsModel {
                history: replaced(self.history, frame),
                latencies: self.latencies.with_sample(
                    duration_nanos(stats.total_pipeline_latency),
                ),
                ..self
            };
            if self.full_report_is_due(now) {
                reported.after_full_report()
            } else {
                reported
            }
        } else {
            self
        }
    }
}

impl GraphReport {
    /// What is reported of a frame.
    pub open spec fn is_of(
        self,
        frame: FrameModel,
        interval: nat,
        stats: ClientStatistics,
    ) -> bool {
        &&& duration_nanos(self.total_pipeline_latency) == duration_nanos(
            stats.total_pipeline_latency,
        )
        &&& duration_nanos(self.game_time) == frame.game_time()
        &&& duration_nanos(self.server_compositor) == frame.compositor_time()
        &&& duration_nanos(self.encoder) == frame.encoder_time()
        &&& duration_nanos(self.network) == network_time(frame, stats)
        &&& duration_nanos(self.decoder) == duration_nanos(stats.video_decode)
        &&& duration_nanos(self.decoder_queue) == duration_nanos(stats.video_decoder_queue)
        &&& duration_nanos(self.client_compositor) == duration_nanos(stats.rendering)
        &&& duration_nanos(self.vsync_queue) == duration_nanos(stats.vsync_queue)
        &&& duration_nanos(self.client_frame_interval) == at_least_min_interval(
            duration_nanos(stats.frame_interval),
        )
        &&& duration_nanos(self.server_frame_interval) == at_least_min_interval(interval)
    }
}

/// Keeps track of the frames that were sent to a client.
pub struct StatisticsManager {
    history_buffer: VecDeque<HistoryFrame>,
    max_history_size: usize,
    last_full_report_instant: Instant,
    last_frame_present_instant: Instant,
    last_frame_present_interval: Duration,
    video_packets_total: usize,
    video_packets_partial_sum: usize,
    video_bytes_total: usize,
    video_bytes_partial_sum: usize,
    packets_lost_total: usize,
    packets_lost_partial_sum: usize,
    battery_gauges: HashMap<u64, u32>,
    steamvr_pipeline_latency: Duration,
    total_pipeline_latency_average: SlidingWindowAverage<Duration>,
}

/// The frames of a history.
pub open spec fn frames(history: Seq<HistoryFrame>) -> Seq<FrameModel> {
    history.map_values(|frame: HistoryFrame| frame@)
}

impl View for StatisticsManager {
    type V = StatisticsModel;

    closed spec fn view(&self) -> StatisticsModel {
        StatisticsModel {
            history: frames(self.history_buffer@),
            max_history_size: self.max_history_size,
            last_full_report: self.last_full_report_instant,
            last_frame_present: self.last_frame_present_instant,
            last_frame_present_interval: duration_nanos(self.last_frame_present_interval),
            video_packets_total: self.video_packets_total,
            video_packets_partial_sum: self.video_packets_partial_sum,
            video_bytes_total: self.video_bytes_total,
            video_bytes_partial_sum: self.video_bytes_partial_sum,
            packets_lost_total: self.packets_lost_total,
            packets_lost_partial_sum: self.packets_lost_partial_sum,
            battery_gauges: self.battery_gauges@,
            steamvr_pipeline_latency: duration_nanos(self.steamvr_pipeline_latency),
            latencies: window_nanos(self.total_pipeline_latency_average@),
        }
    }
}

impl StatisticsManager {
    /// `max_history_size` is the number of frames that are remembered, and of the latencies that
    /// the average is calculated from.
    pub fn new(
        max_history_size: usize,
        steamvr_pipeline_latency: Duration,
        now: Instant,
    ) -> (manager: StatisticsManager)
        ensures
            manager@.wf(),
            manager@ == StatisticsModel::initial(
                max_history_size,
                duration_nanos(steamvr_pipeline_latency),
                now,
            ),
    {
        let zero = from_nanos(0);
        let manager = StatisticsManager {
            history_buffer: VecDeque::new(),
            max_history_size,
            last_full_report_instant: now,
            last_frame_present_instant: now,
            last_frame_present_interval: zero,
            video_packets_total: 0,
            video_packets_partial_sum: 0,
            video_bytes_total: 0,
            video_bytes_partial_sum: 0,
            packets_lost_total: 0,
            packets_lost_partial_sum: 0,
            battery_gauges: HashMap::new(),
            steamvr_pipeline_latency,
            total_pipeline_latency_average: SlidingWindowAverage::new(zero, max_history_size),
        };
        assert(manager@.latencies.samples =~= seq![0nat]);
        assert(manager@.history =~= Seq::empty());
        manager
    }

    /// Finds the frame for a timestamp.
    fn find_frame(&self, target_timestamp: Duration) -> (index: Option<usize>)
        requires
            self@.wf(),
        ensures
            match index {
                Some(index) => {
                    &&& has_frame(self@.history, duration_nanos(target_timestamp))
                    &&& index == frame_index(self@.history, duration_nanos(target_timestamp))
                    &&& index < self.history_buffer@.len()
                    &&& self.history_buffer@[index as int]@ == frame_of(
                        self@.history,
                        duration_nanos(target_timestamp),
                    )
                },
                None => !has_frame(self@.history, duration_nanos(target_timestamp)),
            },
    {
        let wanted: u128 = target_timestamp.as_nanos();
        let ghost history = self@.history;
        let mut i: usize = 0;
        while i < self.history_buffer.len()
            invariant
                i <= self.history_buffer@.len(),
                wanted == duration_nanos(target_timestamp),
                history == frames(self.history_buffer@),
                history == self@.history,
                self@.wf(),
                forall|j: int| 0 <= j < i ==> (#[trigger] history[j]).target_timestamp != wanted,
            decreases self.history_buffer@.len() - i,
        {
            if self.history_buffer[i].target_timestamp.as_nanos() == wanted {
                proof {
                    assert(history[i as int].target_timestamp == wanted);
                    let k = frame_index(history, wanted as nat);
                    assert(0 <= k < history.len() && history[k].target_timestamp == wanted);
                    if k < i {
                        assert(false);
                    } else if k > i {
                        assert(history[i as int].target_timestamp != history[k].target_timestamp);
                    }
                }
                return Some(i);
            }
            i += 1;
        }
        None
    }

    /// Puts a frame in the place of the one for the same timestamp.
    fn replace_frame(&mut self, index: usize, frame: HistoryFrame)
        requires
            old(self)@.wf(),
            index < old(self)@.history.len(),
            old(self)@.history[index as int].target_timestamp == duration_nanos(
                frame.target_timestamp,
            ),
        ensures
            final(self)@ == (StatisticsModel {
                history: old(self)@.history.update(index as int, frame@),
                ..old(self)@
            }),
            final(self)@.wf(),
    {
        let ghost before = self.history_buffer@;
        let _ = self.history_buffer.remove(index);
        self.history_buffer.insert(index, frame);
        proof {
            assert(self.history_buffer@ =~= before.update(index as int, frame));
            assert(frames(self.history_buffer@) =~= frames(before).update(index as int, frame@));
        }
    }

    pub fn report_tracking_received(&mut self, target_timestamp: Duration, now: Instant)
        requires
            old(self)@.wf(),
        ensures
            final(self)@ == old(self)@.after_tracking(duration_nanos(target_timestamp), now),
            final(self)@.wf(),
    {
        let ghost before = self@.history;
        let ghost timestamp = duration_nanos(target_timestamp);
        if self.find_frame(target_timestamp).is_none() {
            let mut frame = HistoryFrame::default(now);
            frame.target_timestamp = target_timestamp;
            self.history_buffer.push_front(frame);
            assert(self@.history =~= seq![FrameModel::at(timestamp, now)] + before);
        }
        let ghost longer = self@.history;
        assert(timestamps_differ(longer)) by {
            assert forall|i: int, j: int| 0 <= i < j < longer.len() implies (
            #[trigger] longer[i]).target_timestamp != (#[trigger] longer[j]).target_timestamp by {
                if !has_frame(before, timestamp) {
                    assert(longer[j] == before[j - 1]);
                    if i > 0 {
                        assert(longer[i] == before[i - 1]);
                    }
                }
            }
        }
        if self.history_buffer.len() > self.max_history_size {
            let _ = self.history_buffer.pop_back();
            assert(self@.history =~= longer.drop_last());
        }
        assert(self@.history =~= with_tracking(before, self.max_history_size, timestamp, now));
    }

    pub fn report_frame_present(
        &mut self,
        target_timestamp: Duration,
        offset: Duration,
        now: Instant,
    )
        requires
            old(self)@.wf(),
            now.nanos - duration_nanos(offset) >= i64::MIN,
        ensures
            final(self)@ == old(self)@.after_present(
                duration_nanos(target_timestamp),
                (Instant { nanos: (now.nanos - duration_nanos(offset)) as i64 }),
            ),
            final(self)@.wf(),
    {
        if let Some(index) = self.find_frame(target_timestamp) {
            let then = now.before(offset);
            self.last_frame_present_interval = then.saturating_duration_since(
                self.last_frame_present_instant,
            );
            self.last_frame_present_instant = then;
            let mut frame = self.history_buffer[index];
            frame.frame_present = then;
            self.replace_frame(index, frame);
        }
    }

    pub fn report_frame_composed(
        &mut self,
        target_timestamp: Duration,
        offset: Duration,
        now: Instant,
    )
        requires
            old(self)@.wf(),
            now.nanos - duration_nanos(offset) >= i64::MIN,
        ensures
            final(self)@ == old(self)@.after_composed(
                duration_nanos(target_timestamp),
                (Instant { nanos: (now.nanos - duration_nanos(offset)) as i64 }),
            ),
            final(self)@.wf(),
    {
        if let Some(index) = self.find_frame(target_timestamp) {
            let mut frame = self.history_buffer[index];
            frame.frame_composed = now.before(offset);
            self.replace_frame(index, frame);
        }
    }

    pub fn report_frame_encoded(&mut self, target_timestamp: Duration, now: Instant)
        requires
            old(self)@.wf(),
        ensures
            final(self)@ == old(self)@.after_encoded(duration_nanos(target_timestamp), now),
            final(self)@.wf(),
    {
        if let Some(index) = self.find_frame(target_timestamp) {
            let mut frame = self.history_buffer[index];
            frame.frame_encoded = now;
            self.replace_frame(index, frame);
        }
    }

    /// Tells whether one more packet can be counted.
    pub fn can_count_packet(&self, bytes_count: usize) -> (possible: bool)
        ensures
            possible == (self@.video_packets_total < usize::MAX && self@.video_bytes_total
                + bytes_count <= usize::MAX),
    {
        self.video_packets_total < usize::MAX && self.video_bytes_total <= usize::MAX - bytes_count
    }

    /// Tells whether one more loss can be counted.
    pub fn can_count_loss(&self) -> (possible: bool)
        ensures
            possible == (self@.packets_lost_total < usize::MAX),
    {
        self.packets_lost_total < usize::MAX
    }

    pub fn report_video_packet(&mut self, bytes_count: usize)
        requires
            old(self)@.wf(),
            old(self)@.video_packets_total < usize::MAX,
            old(self)@.video_bytes_total + bytes_count <= usize::MAX,
        ensures
            final(self)@ == old(self)@.after_packet(bytes_count),
            final(self)@.wf(),
    {
        self.video_packets_total += 1;
        self.video_packets_partial_sum += 1;
        self.video_bytes_total += bytes_count;
        self.video_bytes_partial_sum += bytes_count;
    }

    pub fn report_packet_loss(&mut self)
        requires
            old(self)@.wf(),
            old(self)@.packets_lost_total < usize::MAX,
        ensures
            final(self)@ == old(self)@.after_loss(),
            final(self)@.wf(),
    {
        self.packets_lost_total += 1;
        self.packets_lost_partial_sum += 1;
    }

    /// The battery level is given by its bits.
    pub fn report_battery(&mut self, device_id: u64, gauge_bits: u32)
        requires
            old(self)@.wf(),
        ensures
            final(self)@ == old(self)@.after_battery(device_id, gauge_bits),
            final(self)@.wf(),
    {
        let _ = self.battery_gauges.insert(device_id, gauge_bits);
    }

    /// A battery level, and 0 where none was reported.
    fn gauge(&self, device_id: u64) -> (gauge_bits: u32)
        ensures
            gauge_bits == gauge_of(self@.battery_gauges, device_id),
    {
        match self.battery_gauges.get(&device_id) {
            Some(gauge_bits) => *gauge_bits,
            None => 0,
        }
    }

    /// Tells whether the known stages of the frame that the client reports on can be added up.
    pub fn can_report(&self, client_stats: &ClientStatistics) -> (possible: bool)
        requires
            self@.wf(),
        ensures
            ({
                let timestamp = duration_nanos(client_stats.target_timestamp);
                possible == (has_frame(self@.history, timestamp) ==> is_duration(
                    known_time(frame_of(self@.history, timestamp), *client_stats) as int,
                ))
            }),
    {
        match self.find_frame(client_stats.target_timestamp) {
            Some(index) => {
                let frame = self.history_buffer[index];
                let known: u128 = frame.frame_present.saturating_duration_since(
                    frame.tracking_received,
                ).as_nanos() + frame.frame_composed.saturating_duration_since(
                    frame.frame_present,
                ).as_nanos() + frame.frame_encoded.saturating_duration_since(
                    frame.frame_composed,
                ).as_nanos() + client_stats.video_decode.as_nanos()
                    + client_stats.video_decoder_queue.as_nanos()
                    + client_stats.rendering.as_nanos() + client_stats.vsync_queue.as_nanos();
                known < 0x1_0000_0000_0000_0000 * 1_000_000_000
            },
            None => true,
        }
    }

    /// Called for every frame that the client reports on. Returns the network latency, which is 0
    /// for a frame that is not known, and what is to be reported.
    pub fn report_statistics(
        &mut self,
        client_stats: ClientStatistics,
        devices: BatteryDevices,
        now: Instant,
    ) -> (result: (Duration, Option<FrameReport>))
        requires
            old(self)@.wf(),
            ({
                let timestamp = duration_nanos(client_stats.target_timestamp);
                has_frame(old(self)@.history, timestamp) ==> is_duration(
                    known_time(frame_of(old(self)@.history, timestamp), client_stats) as int,
                )
            }),
        ensures
            ({
                let timestamp = duration_nanos(client_stats.target_timestamp);
                let frame = frame_of(old(self)@.history, timestamp);
                let (network_latency, report) = result;
                if has_frame(old(self)@.history, timestamp) {
                    &&& duration_nanos(network_latency) == network_time(frame, client_stats)
                    &&& report is Some
                    &&& report->0.graph.is_of(
                        frame,
                        old(self)@.last_frame_present_interval,
                        client_stats,
                    )
                    &&& report->0.full == if old(self)@.full_report_is_due(now) {
                        Some(old(self)@.full_report(devices))
                    } else {
                        None
                    }
                } else {
                    &&& duration_nanos(network_latency) == 0
                    &&& report is None
                }
            }),
            final(self)@ == old(self)@.after_statistics(client_stats, now),
            final(self)@.wf(),
    {
        let index: usize = match self.find_frame(client_stats.target_timestamp) {
            Some(index) => index,
            None => {
                return (from_nanos(0), None);
            },
        };
        let mut frame = self.history_buffer[index];
        frame.total_pipeline_latency = client_stats.total_pipeline_latency;
        self.replace_frame(index, frame);
        proof {
            lemma_window_nanos(
                self.total_pipeline_latency_average@,
                client_stats.total_pipeline_latency,
            );
        }
        self.total_pipeline_latency_average.submit_sample(client_stats.total_pipeline_latency);

        let game_time = frame.frame_present.saturating_duration_since(frame.tracking_received);
        let server_compositor = frame.frame_composed.saturating_duration_since(
            frame.frame_present,
        );
        let encoder = frame.frame_encoded.saturating_duration_since(frame.frame_composed);
        let known: u128 = game_time.as_nanos() + server_compositor.as_nanos() + encoder.as_nanos()
            + client_stats.video_decode.as_nanos() + client_stats.video_decoder_queue.as_nanos()
            + client_stats.rendering.as_nanos() + client_stats.vsync_queue.as_nanos();
        let network = saturating_sub(client_stats.total_pipeline_latency, from_nanos(known));

        let next_report: i128 = self.last_full_report_instant.nanos as i128
            + FULL_REPORT_INTERVAL_NANOS as i128;
        let due: bool = next_report < now.nanos as i128;
        let mut full = None;
        if due {
            self.last_full_report_instant = Instant {
                nanos: self.last_full_report_instant.nanos + FULL_REPORT_INTERVAL_NANOS,
            };
            full = Some(
                FullReport {
                    video_packets_total: self.video_packets_total,
                    video_packets_partial_sum: self.video_packets_partial_sum,
                    video_bytes_total: self.video_bytes_total,
                    video_bytes_partial_sum: self.video_bytes_partial_sum,
                    packets_lost_total: self.packets_lost_total,
                    packets_lost_partial_sum: self.packets_lost_partial_sum,
                    battery_hmd: self.gauge(devices.head_id),
                    battery_left: self.gauge(devices.left_hand_id),
                    battery_right: self.gauge(devices.right_hand_id),
                },
            );
            self.video_packets_partial_sum = 0;
            self.video_bytes_partial_sum = 0;
            self.packets_lost_partial_sum = 0;
        }
        let graph = GraphReport {
            total_pipeline_latency: client_stats.total_pipeline_latency,
            game_time,
            server_compositor,
            encoder,
            network,
            decoder: client_stats.video_decode,
            decoder_queue: client_stats.video_decoder_queue,
            client_compositor: client_stats.rendering,
            vsync_queue: client_stats.vsync_queue,
            client_frame_interval: limit_interval(client_stats.frame_interval),
            server_frame_interval: limit_interval(self.last_frame_present_interval),
        };
        (network, Some(FrameReport { full, graph }))
    }

    /// Tells whether the reported latencies have an average.
    pub fn can_average_latencies(&self) -> (possible: bool)
        ensures
            possible == has_average(self@.latencies.samples),
    {
        self.total_pipeline_latency_average.can_average()
    }

    /// What is left of the latency of the SteamVR pipeline after the average of the latencies that
    /// were reported last. A latency of 0 stands in for those that are yet to be reported.
    pub fn tracker_pose_time_offset(&self) -> (offset: Duration)
        requires
            has_average(self@.latencies.samples),
        ensures
            duration_nanos(offset) == left_of(
                self@.steamvr_pipeline_latency,
                average_nanos(self@.latencies.samples),
            ),
    {
        saturating_sub(
            self.steamvr_pipeline_latency,
            self.total_pipeline_latency_average.get_average(),
        )
    }
}

/// An interval that is not too short to calculate a frame rate from.
fn limit_interval(interval: Duration) -> (limited: Duration)
    ensures
        duration_nanos(limited) == at_least_min_interval(duration_nanos(interval)),
{
    if interval.as_nanos() < MIN_FRAME_INTERVAL_NANOS {
        from_nanos(MIN_FRAME_INTERVAL_NANOS)
    } else {
        interval
    }
}

/// The stages of a frame make up the whole of its latency, unless the known ones alone take
/// longer.
pub proof fn law_stages_make_up_latency(frame: FrameModel, stats: ClientStatistics)
    requires
        known_time(frame, stats) <= duration_nanos(stats.total_pipeline_latency),
    ensures
        known_time(frame, stats) + network_time(frame, stats) == duration_nanos(
            stats.total_pipeline_latency,
        ),
{
}

/// A frame that was just heard of is remembered, unless nothing is; no other frame than the
/// oldest is forgotten for it.
pub proof fn law_latest_frames_are_remembered(
    history: Seq<FrameModel>,
    max_history_size: usize,
    target_timestamp: nat,
    now: Instant,
)
    requires
        history.len() <= max_history_size,
        max_history_size > 0,
    ensures
        has_frame(
            with_tracking(history, max_history_size, target_timestamp, now),
            target_timestamp,
        ),
        forall|i: int|
            0 <= i < history.len() - 1 ==> with_tracking(
                history,
                max_history_size,
                target_timestamp,
                now,
            ).contains(#[trigger] history[i]),
        history.len() < max_history_size && history.len() > 0 ==> with_tracking(
            history,
            max_history_size,
            target_timestamp,
            now,
        ).contains(history.last()),
{
    let later = with_tracking(history, max_history_size, target_timestamp, now);
    if has_frame(history, target_timestamp) {
        assert(later == history);
    } else {
        assert(later[0].target_timestamp == target_timestamp);
        assert forall|i: int| 0 <= i < history.len() - 1 implies later.contains(
            #[trigger] history[i],
        ) by {
            assert(later[i + 1] == history[i]);
        }
        if history.len() < max_history_size && history.len() > 0 {
            assert(later[history.len() as int] == history.last());
        }
    }
}

/// What is counted is reported in full: a full report leaves nothing counted since.
pub proof fn law_partial_sums_start_anew(
    statistics: StatisticsModel,
    stats: ClientStatistics,
    now: Instant,
)
    requires
        has_frame(statistics.history, duration_nanos(stats.target_timestamp)),
        statistics.full_report_is_due(now),
    ensures
        statistics.after_statistics(stats, now).video_packets_partial_sum == 0,
        statistics.after_statistics(stats, now).video_bytes_partial_sum == 0,
        statistics.after_statistics(stats, now).packets_lost_partial_sum == 0,
        statistics.after_statistics(stats, now).video_packets_total
            == statistics.video_packets_total,
        statistics.after_statistics(stats, now).video_bytes_total == statistics.video_bytes_total,
        statistics.after_statistics(stats, now).packets_lost_total
            == statistics.packets_lost_total,
{
}

} // verus!
