//! What the full reports say after any number of calls.

use crate::average::{with_samples, Window};
use crate::packets::ClientStatistics;
use crate::statistics::{
    frame_index, has_frame, known_time, timestamps_differ, BatteryDevices, FrameModel, FullReport,
    GraphReport, StatisticsModel,
};
use crate::time::{duration_nanos, Instant};
use vstd::prelude::*;

verus! {

/// A call that reports something.
pub enum StatisticsCall {
    TrackingReceived { target_timestamp: nat, now: Instant },
    FramePresent { target_timestamp: nat, then: Instant },
    FrameComposed { target_timestamp: nat, then: Instant },
    FrameEncoded { target_timestamp: nat, now: Instant },
    VideoPacket { bytes_count: usize },
    PacketLoss,
    Battery { device_id: u64, gauge_bits: u32 },
    Statistics { client_stats: ClientStatistics, now: Instant },
}

/// After a call.
pub open spec fn after_call(statistics: StatisticsModel, call: StatisticsCall) -> StatisticsModel {
    match call {
        StatisticsCall::TrackingReceived { target_timestamp, now } => statistics.after_tracking(
            target_timestamp,
            now,
        ),
        StatisticsCall::FramePresent { target_timestamp, then } => statistics.after_present(
            target_timestamp,
            then,
        ),
        StatisticsCall::FrameComposed { target_timestamp, then } => statistics.after_composed(
            target_timestamp,
            then,
        ),
        StatisticsCall::FrameEncoded { target_timestamp, now } => statistics.after_encoded(
            target_timestamp,
            now,
        ),
        StatisticsCall::VideoPacket { bytes_count } => statistics.after_packet(bytes_count),
        StatisticsCall::PacketLoss => statistics.after_loss(),
        StatisticsCall::Battery { device_id, gauge_bits } => statistics.after_battery(
            device_id,
            gauge_bits,
        ),
        StatisticsCall::Statistics { client_stats, now } => statistics.after_statistics(
            client_stats,
            now,
        ),
    }
}

/// After a number of calls, one after the other.
pub open spec fn after_calls(statistics: StatisticsModel, calls: Seq<StatisticsCall>) ->
    StatisticsModel
    decreases calls.len(),
{
    if calls.len() == 0 {
        statistics
    } else {
        after_call(after_calls(statistics, calls.drop_last()), calls.last())
    }
}

/// How many of the calls report a video packet.
pub open spec fn packets_in(calls: Seq<StatisticsCall>) -> nat
    decreases calls.len(),
{
    if calls.len() == 0 {
        0
    } else {
        packets_in(calls.drop_last()) + if calls.last() is VideoPacket {
            1nat
        } else {
            0
        }
    }
}

/// How many bytes the reported video packets have in all.
pub open spec fn bytes_in(calls: Seq<StatisticsCall>) -> nat
    decreases calls.len(),
{
    if calls.len() == 0 {
        0
    } else {
        bytes_in(calls.drop_last()) + match calls.last() {
            StatisticsCall::VideoPacket { bytes_count } => bytes_count as nat,
            _ => 0,
        }
    }
}

/// How many of the calls report a loss.
pub open spec fn losses_in(calls: Seq<StatisticsCall>) -> nat
    decreases calls.len(),
{
    if calls.len() == 0 {
        0
    } else {
        losses_in(calls.drop_last()) + if calls.last() is PacketLoss {
            1nat
        } else {
            0
        }
    }
}

/// The battery level that was last reported of a device, and 0 where none was.
pub open spec fn last_gauge(calls: Seq<StatisticsCall>, device: u64) -> u32
    decreases calls.len(),
{
    if calls.len() == 0 {
        0
    } else {
        match calls.last() {
            StatisticsCall::Battery { device_id, gauge_bits } if device_id == device => gauge_bits,
            _ => last_gauge(calls.drop_last(), device),
        }
    }
}

/// The call makes a full report.
pub open spec fn makes_full_report(statistics: StatisticsModel, call: StatisticsCall) -> bool {
    match call {
        StatisticsCall::Statistics { client_stats, now } => {
            &&& has_frame(statistics.history, duration_nanos(client_stats.target_timestamp))
            &&& statistics.full_report_is_due(now)
        },
        _ => false,
    }
}

/// The calls after the last one that made a full report, and all of them if none did.
pub open spec fn calls_since_report(statistics: StatisticsModel, calls: Seq<StatisticsCall>) -> Seq<
    StatisticsCall,
>
    decreases calls.len(),
{
    if calls.len() == 0 {
        Seq::empty()
    } else {
        let before = calls.drop_last();
        if makes_full_report(after_calls(statistics, before), calls.last()) {
            Seq::empty()
        } else {
            calls_since_report(statistics, before).push(calls.last())
        }
    }
}

/// What was reported can be counted.
pub open spec fn is_countable(calls: Seq<StatisticsCall>) -> bool {
    &&& packets_in(calls) <= usize::MAX
    &&& bytes_in(calls) <= usize::MAX
    &&& losses_in(calls) <= usize::MAX
}

/// Whatever calls were made before, in whatever order, a full report gives the number of all the
/// packets, bytes and losses that were reported, the number of those that were reported since
/// the last full report, and the battery levels that were reported last.
pub proof fn law_full_report_counts_the_calls(
    max_history_size: usize,
    steamvr_pipeline_latency: nat,
    start: Instant,
    calls: Seq<StatisticsCall>,
    devices: BatteryDevices,
)
    requires
        is_countable(calls),
    ensures
        ({
            let initial = StatisticsModel::initial(
                max_history_size,
                steamvr_pipeline_latency,
                start,
            );
            let since = calls_since_report(initial, calls);
            after_calls(initial, calls).full_report(devices) == (FullReport {
                video_packets_total: packets_in(calls) as usize,
                video_packets_partial_sum: packets_in(since) as usize,
                video_bytes_total: bytes_in(calls) as usize,
                video_bytes_partial_sum: bytes_in(since) as usize,
                packets_lost_total: losses_in(calls) as usize,
                packets_lost_partial_sum: losses_in(since) as usize,
                battery_hmd: last_gauge(calls, devices.head_id),
                battery_left: last_gauge(calls, devices.left_hand_id),
                battery_right: last_gauge(calls, devices.right_hand_id),
            })
        }),
    decreases calls.len(),
{
    let initial = StatisticsModel::initial(max_history_size, steamvr_pipeline_latency, start);
    lemma_counts_since_report(initial, calls);
    if calls.len() > 0 {
        let before = calls.drop_last();
        law_full_report_counts_the_calls(
            max_history_size,
            steamvr_pipeline_latency,
            start,
            before,
            devices,
        );
        lemma_counts_since_report(initial, before);
        let since = calls_since_report(initial, before);
        assert(since.push(calls.last()).drop_last() =~= since);
    }
}

/// The latencies that the client reported of known frames, in nanoseconds.
pub open spec fn latencies_in(statistics: StatisticsModel, calls: Seq<StatisticsCall>) -> Seq<nat>
    decreases calls.len(),
{
    if calls.len() == 0 {
        Seq::empty()
    } else {
        let before = calls.drop_last();
        match calls.last() {
            StatisticsCall::Statistics { client_stats, .. } if has_frame(
                after_calls(statistics, before).history,
                duration_nanos(client_stats.target_timestamp),
            ) => latencies_in(statistics, before).push(
                duration_nanos(client_stats.total_pipeline_latency),
            ),
            _ => latencies_in(statistics, before),
        }
    }
}

/// Whatever calls were made before, the average is that of a window which got the latencies that
/// were reported of known frames, one after the other.
pub proof fn law_latencies_are_those_reported(
    max_history_size: usize,
    steamvr_pipeline_latency: nat,
    start: Instant,
    calls: Seq<StatisticsCall>,
)
    ensures
        ({
            let initial = StatisticsModel::initial(
                max_history_size,
                steamvr_pipeline_latency,
                start,
            );
            after_calls(initial, calls).latencies == with_samples(
                Window { samples: seq![0nat], max_history_size },
                latencies_in(initial, calls),
            )
        }),
    decreases calls.len(),
{
    let initial = StatisticsModel::initial(max_history_size, steamvr_pipeline_latency, start);
    if calls.len() > 0 {
        let before = calls.drop_last();
        law_latencies_are_those_reported(
            max_history_size,
            steamvr_pipeline_latency,
            start,
            before,
        );
        let latencies = latencies_in(initial, before);
        if let StatisticsCall::Statistics { client_stats, .. } = calls.last() {
            let latency = duration_nanos(client_stats.total_pipeline_latency);
            assert(latencies.push(latency).drop_last() =~= latencies);
        }
    }
}

/// What was reported since the last full report is part of all that was reported.
proof fn lemma_counts_since_report(statistics: StatisticsModel, calls: Seq<StatisticsCall>)
    ensures
        packets_in(calls_since_report(statistics, calls)) <= packets_in(calls),
        bytes_in(calls_since_report(statistics, calls)) <= bytes_in(calls),
        losses_in(calls_since_report(statistics, calls)) <= losses_in(calls),
    decreases calls.len(),
{
    if calls.len() > 0 {
        lemma_counts_since_report(statistics, calls.drop_last());
        let since = calls_since_report(statistics, calls.drop_last());
        assert(since.push(calls.last()).drop_last() =~= since);
    }
}

/// A frame of the history is for that timestamp.
pub open spec fn knows_frame(statistics: StatisticsModel, target_timestamp: nat) -> bool {
    exists|i: int|
        0 <= i < statistics.history.len() && (#[trigger] statistics.history[i]).target_timestamp
            == target_timestamp
}

/// When known frames were presented.
pub open spec fn presentations_in(
    statistics: StatisticsModel,
    calls: Seq<StatisticsCall>,
) -> Seq<Instant>
    decreases calls.len(),
{
    if calls.len() == 0 {
        Seq::empty()
    } else {
        let before = calls.drop_last();
        match calls.last() {
            StatisticsCall::FramePresent { target_timestamp, then } if knows_frame(
                after_calls(statistics, before),
                target_timestamp,
            ) => presentations_in(statistics, before).push(then),
            _ => presentations_in(statistics, before),
        }
    }
}

/// The nanoseconds that have passed from one point in time to another, and none if they come in the
/// other order.
pub open spec fn passed(from: Instant, to: Instant) -> int {
    if to.nanos >= from.nanos {
        to.nanos - from.nanos
    } else {
        0
    }
}

/// Whatever calls were made before, the frame interval of the server is the time between the last
/// two presentations of known frames, whatever other calls there were in between. The start stands
/// in for a presentation that is missing.
pub proof fn law_frame_interval_is_between_presentations(
    max_history_size: usize,
    steamvr_pipeline_latency: nat,
    start: Instant,
    calls: Seq<StatisticsCall>,
)
    ensures
        ({
            let initial = StatisticsModel::initial(
                max_history_size,
                steamvr_pipeline_latency,
                start,
            );
            let after = after_calls(initial, calls);
            let presentations = presentations_in(initial, calls);
            let count = presentations.len() as int;
            &&& after.last_frame_present_interval == if count == 0 {
                0
            } else if count == 1 {
                passed(start, presentations[0])
            } else {
                passed(presentations[count - 2], presentations[count - 1])
            }
            &&& after.last_frame_present == if count == 0 {
                start
            } else {
                presentations[count - 1]
            }
        }),
    decreases calls.len(),
{
    let initial = StatisticsModel::initial(max_history_size, steamvr_pipeline_latency, start);
    if calls.len() > 0 {
        law_frame_interval_is_between_presentations(
            max_history_size,
            steamvr_pipeline_latency,
            start,
            calls.drop_last(),
        );
    }
}

/// How many of the calls made a full report.
pub open spec fn full_reports_in(statistics: StatisticsModel, calls: Seq<StatisticsCall>) -> nat
    decreases calls.len(),
{
    if calls.len() == 0 {
        0
    } else {
        let before = calls.drop_last();
        full_reports_in(statistics, before) + if makes_full_report(
            after_calls(statistics, before),
            calls.last(),
        ) {
            1nat
        } else {
            0
        }
    }
}

/// Whatever calls were made before, the next full report is due when half a second has passed for
/// each of the full reports and for this one. So there is one in each half second, and none is
/// left out for good.
pub proof fn law_full_reports_come_every_half_second(
    max_history_size: usize,
    steamvr_pipeline_latency: nat,
    start: Instant,
    calls: Seq<StatisticsCall>,
    now: Instant,
)
    ensures
        ({
            let initial = StatisticsModel::initial(
                max_history_size,
                steamvr_pipeline_latency,
                start,
            );
            let reports = full_reports_in(initial, calls);
            after_calls(initial, calls).full_report_is_due(now) <==> now.nanos > start.nanos + (
            reports + 1) * 500_000_000
        }),
{
    lemma_last_full_report(max_history_size, steamvr_pipeline_latency, start, calls);
}

proof fn lemma_last_full_report(
    max_history_size: usize,
    steamvr_pipeline_latency: nat,
    start: Instant,
    calls: Seq<StatisticsCall>,
)
    ensures
        ({
            let initial = StatisticsModel::initial(
                max_history_size,
                steamvr_pipeline_latency,
                start,
            );
            after_calls(initial, calls).last_full_report.nanos == start.nanos + full_reports_in(
                initial,
                calls,
            ) * 500_000_000
        }),
    decreases calls.len(),
{
    if calls.len() > 0 {
        lemma_last_full_report(
            max_history_size,
            steamvr_pipeline_latency,
            start,
            calls.drop_last(),
        );
    }
}

/// The frame for a timestamp is where it is.
proof fn lemma_frame_index(history: Seq<FrameModel>, i: int)
    requires
        timestamps_differ(history),
        0 <= i < history.len(),
    ensures
        has_frame(history, history[i].target_timestamp),
        frame_index(history, history[i].target_timestamp) == i,
{
    let k = frame_index(history, history[i].target_timestamp);
    assert(0 <= k < history.len() && history[k].target_timestamp == history[i].target_timestamp);
    if k < i {
        assert(history[k].target_timestamp != history[i].target_timestamp);
    } else if i < k {
        assert(history[i].target_timestamp != history[k].target_timestamp);
    }
}

/// Each stage of a frame is noted with that frame, at its time, and changes neither another stage
/// nor another frame. Of a frame that is not known nothing is noted.
pub proof fn law_stages_are_noted_with_their_frame(
    statistics: StatisticsModel,
    target_timestamp: nat,
    then: Instant,
    i: int,
)
    requires
        timestamps_differ(statistics.history),
        0 <= i < statistics.history.len(),
    ensures
        ({
            let frame = statistics.history[i];
            let own = frame.target_timestamp == target_timestamp;
            let presented = statistics.after_present(target_timestamp, then).history;
            let composed = statistics.after_composed(target_timestamp, then).history;
            let encoded = statistics.after_encoded(target_timestamp, then).history;
            &&& presented.len() == statistics.history.len()
            &&& composed.len() == statistics.history.len()
            &&& encoded.len() == statistics.history.len()
            &&& presented[i] == if own {
                FrameModel { frame_present: then, ..frame }
            } else {
                frame
            }
            &&& composed[i] == if own {
                FrameModel { frame_composed: then, ..frame }
            } else {
                frame
            }
            &&& encoded[i] == if own {
                FrameModel { frame_encoded: then, ..frame }
            } else {
                frame
            }
        }),
{
    let history = statistics.history;
    lemma_frame_index(history, i);
    if has_frame(history, target_timestamp) {
        let k = frame_index(history, target_timestamp);
        assert(0 <= k < history.len() && history[k].target_timestamp == target_timestamp);
    }
}

/// A frame that is heard of for the first time comes first in the history, as one whose tracking
/// came just now. The frames that were known stay as they are and in their order, but for the
/// oldest one where there is no room left. A frame that is known already changes nothing.
pub proof fn law_tracked_frame_comes_first(
    statistics: StatisticsModel,
    target_timestamp: nat,
    now: Instant,
    i: int,
)
    requires
        statistics.history.len() <= statistics.max_history_size,
        0 <= i < statistics.history.len(),
    ensures
        ({
            let history = statistics.history;
            let later = statistics.after_tracking(target_timestamp, now).history;
            &&& knows_frame(statistics, target_timestamp) ==> later == history
            &&& !knows_frame(statistics, target_timestamp) ==> {
                &&& later.len() == if history.len() < statistics.max_history_size {
                    history.len() + 1
                } else {
                    history.len()
                }
                &&& later[0] == (FrameModel {
                    target_timestamp,
                    tracking_received: now,
                    frame_present: now,
                    frame_composed: now,
                    frame_encoded: now,
                    total_pipeline_latency: 0,
                })
                &&& i + 1 < later.len() ==> later[i + 1] == history[i]
            }
        }),
{
}

/// From tracking to encoding, the stages of a frame take the time from each of them to the next.
pub proof fn law_stages_take_the_time_between_them(
    statistics: StatisticsModel,
    target_timestamp: nat,
    received: Instant,
    presented: Instant,
    composed: Instant,
    encoded: Instant,
)
    requires
        statistics.wf(),
        statistics.max_history_size > 0,
        !knows_frame(statistics, target_timestamp),
    ensures
        ({
            let frame = statistics.after_tracking(target_timestamp, received).after_present(
                target_timestamp,
                presented,
            ).after_composed(target_timestamp, composed).after_encoded(
                target_timestamp,
                encoded,
            ).history[0];
            &&& frame.target_timestamp == target_timestamp
            &&& frame.game_time() == passed(received, presented)
            &&& frame.compositor_time() == passed(presented, composed)
            &&& frame.encoder_time() == passed(composed, encoded)
        }),
{
    let first = statistics.after_tracking(target_timestamp, received);
    assert forall|i: int, j: int| 0 <= i < j < first.history.len() implies (
    #[trigger] first.history[i]).target_timestamp != (
    #[trigger] first.history[j]).target_timestamp by {
        assert(first.history[j] == statistics.history[j - 1]);
        if i > 0 {
            assert(first.history[i] == statistics.history[i - 1]);
        }
    }
    law_stages_are_noted_with_their_frame(first, target_timestamp, presented, 0);
    let second = first.after_present(target_timestamp, presented);
    lemma_timestamps_stay(first, target_timestamp, presented);
    law_stages_are_noted_with_their_frame(second, target_timestamp, composed, 0);
    let third = second.after_composed(target_timestamp, composed);
    lemma_timestamps_stay(second, target_timestamp, composed);
    law_stages_are_noted_with_their_frame(third, target_timestamp, encoded, 0);
}

/// Noting a stage leaves the timestamps as they are.
proof fn lemma_timestamps_stay(statistics: StatisticsModel, target_timestamp: nat, then: Instant)
    requires
        timestamps_differ(statistics.history),
    ensures
        timestamps_differ(statistics.after_present(target_timestamp, then).history),
        timestamps_differ(statistics.after_composed(target_timestamp, then).history),
{
    let presented = statistics.after_present(target_timestamp, then).history;
    let composed = statistics.after_composed(target_timestamp, then).history;
    assert forall|i: int| 0 <= i < statistics.history.len() implies (
    #[trigger] presented[i]).target_timestamp == statistics.history[i].target_timestamp && (
    #[trigger] composed[i]).target_timestamp == statistics.history[i].target_timestamp by {
        law_stages_are_noted_with_their_frame(statistics, target_timestamp, then, i);
    }
    if statistics.history.len() > 0 {
        law_stages_are_noted_with_their_frame(statistics, target_timestamp, then, 0);
    }
}

/// What is reported of a frame: how long each stage took on the server and on the client, the
/// network as what is left of the whole, and the intervals of at least a millisecond that the frame
/// rates follow from.
pub proof fn law_graph_tells_the_stages_apart(
    graph: GraphReport,
    frame: FrameModel,
    interval: nat,
    stats: ClientStatistics,
)
    requires
        graph.is_of(frame, interval, stats),
    ensures
        ({
            let game = passed(frame.tracking_received, frame.frame_present);
            let compositor = passed(frame.frame_present, frame.frame_composed);
            let encoder = passed(frame.frame_composed, frame.frame_encoded);
            let rest = duration_nanos(stats.total_pipeline_latency) - game - compositor - encoder
                - duration_nanos(stats.video_decode) - duration_nanos(stats.video_decoder_queue)
                - duration_nanos(stats.rendering) - duration_nanos(stats.vsync_queue);
            &&& duration_nanos(graph.game_time) == game
            &&& duration_nanos(graph.server_compositor) == compositor
            &&& duration_nanos(graph.encoder) == encoder
            &&& duration_nanos(graph.network) == if rest > 0 {
                rest
            } else {
                0
            }
            &&& duration_nanos(graph.decoder) == duration_nanos(stats.video_decode)
            &&& duration_nanos(graph.decoder_queue) == duration_nanos(stats.video_decoder_queue)
            &&& duration_nanos(graph.client_compositor) == duration_nanos(stats.rendering)
            &&& duration_nanos(graph.vsync_queue) == duration_nanos(stats.vsync_queue)
            &&& duration_nanos(graph.total_pipeline_latency) == duration_nanos(
                stats.total_pipeline_latency,
            )
            &&& duration_nanos(graph.server_frame_interval) == if interval > 1_000_000 {
                interval
            } else {
                1_000_000
            }
            &&& duration_nanos(graph.client_frame_interval) == if duration_nanos(
                stats.frame_interval,
            ) > 1_000_000 {
                duration_nanos(stats.frame_interval)
            } else {
                1_000_000
            }
        }),
{
}

/// The time that the known stages of a frame take is that of all of them together.
pub proof fn law_known_time_is_that_of_all_stages(frame: FrameModel, stats: ClientStatistics)
    ensures
        known_time(frame, stats) == passed(frame.tracking_received, frame.frame_present) + passed(
            frame.frame_present,
            frame.frame_composed,
        ) + passed(frame.frame_composed, frame.frame_encoded) + duration_nanos(stats.video_decode)
            + duration_nanos(stats.video_decoder_queue) + duration_nanos(stats.rendering)
            + duration_nanos(stats.vsync_queue),
{
}

/// Each call changes only what it is about. How many frames are remembered, and the latency of the
/// SteamVR pipeline, stay as they are.
pub proof fn law_calls_change_only_their_own(statistics: StatisticsModel, call: StatisticsCall)
    ensures
        ({
            let after = after_call(statistics, call);
            &&& after.max_history_size == statistics.max_history_size
            &&& after.steamvr_pipeline_latency == statistics.steamvr_pipeline_latency
            &&& call is VideoPacket || call is PacketLoss || call is Battery ==> after.history
                == statistics.history
            &&& !(call is FramePresent) ==> after.last_frame_present
                == statistics.last_frame_present && after.last_frame_present_interval
                == statistics.last_frame_present_interval
            &&& !(call is Statistics) ==> after.latencies == statistics.latencies
                && after.last_full_report == statistics.last_full_report
            &&& !(call is Battery) ==> after.battery_gauges == statistics.battery_gauges
            &&& !(call is VideoPacket) ==> after.video_packets_total
                == statistics.video_packets_total && after.video_bytes_total
                == statistics.video_bytes_total
            &&& !(call is PacketLoss) ==> after.packets_lost_total
                == statistics.packets_lost_total
        }),
{
}

/// A report of the client on a known frame notes its latency with that frame, and changes nothing
/// else in the history. A report on another frame changes nothing at all.
pub proof fn law_latency_is_noted_with_its_frame(
    statistics: StatisticsModel,
    stats: ClientStatistics,
    now: Instant,
    i: int,
)
    requires
        timestamps_differ(statistics.history),
    ensures
        ({
            let after = statistics.after_statistics(stats, now);
            let timestamp = duration_nanos(stats.target_timestamp);
            &&& after.history.len() == statistics.history.len()
            &&& 0 <= i < statistics.history.len() ==> after.history[i]
                == if statistics.history[i].target_timestamp == timestamp {
                FrameModel {
                    total_pipeline_latency: duration_nanos(stats.total_pipeline_latency),
                    ..statistics.history[i]
                }
            } else {
                statistics.history[i]
            }
            &&& !knows_frame(statistics, timestamp) ==> after == statistics
        }),
{
    let history = statistics.history;
    let timestamp = duration_nanos(stats.target_timestamp);
    if 0 <= i < history.len() {
        lemma_frame_index(history, i);
    }
    if has_frame(history, timestamp) {
        let k = frame_index(history, timestamp);
        assert(0 <= k < history.len() && history[k].target_timestamp == timestamp);
    }
}

/// Where there is no room for a frame none is remembered, and where there is the first one is.
pub proof fn law_first_frame_is_remembered(
    statistics: StatisticsModel,
    target_timestamp: nat,
    now: Instant,
)
    requires
        statistics.history.len() == 0,
    ensures
        ({
            let later = statistics.after_tracking(target_timestamp, now).history;
            &&& statistics.max_history_size == 0 ==> later.len() == 0
            &&& statistics.max_history_size > 0 ==> later == seq![
                FrameModel {
                    target_timestamp,
                    tracking_received: now,
                    frame_present: now,
                    frame_composed: now,
                    frame_encoded: now,
                    total_pipeline_latency: 0,
                },
            ]
        }),
{
    if statistics.max_history_size > 0 {
        assert(statistics.after_tracking(target_timestamp, now).history =~= seq![
            FrameModel {
                target_timestamp,
                tracking_received: now,
                frame_present: now,
                frame_composed: now,
                frame_encoded: now,
                total_pipeline_latency: 0,
            },
        ]);
    }
}

} // verus!
