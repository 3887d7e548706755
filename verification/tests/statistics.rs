use alvr_core::packets::ClientStatistics;
use alvr_core::statistics::{BatteryDevices, HistoryFrame, StatisticsManager};
use alvr_core::time::Instant;
use std::time::Duration;

const DEVICES: BatteryDevices = BatteryDevices { head_id: 1, left_hand_id: 2, right_hand_id: 3 };

fn at(millis: i64) -> Instant {
    Instant { nanos: millis * 1_000_000 }
}

fn ms(millis: u64) -> Duration {
    Duration::from_millis(millis)
}

fn manager(max_history_size: usize) -> StatisticsManager {
    StatisticsManager::new(max_history_size, ms(20), at(0))
}

fn stats(timestamp: u64) -> ClientStatistics {
    ClientStatistics {
        target_timestamp: ms(timestamp),
        frame_interval: ms(14),
        video_decode: ms(4),
        video_decoder_queue: ms(3),
        rendering: ms(2),
        vsync_queue: ms(1),
        total_pipeline_latency: ms(60),
    }
}

/// Tracking, presenting, composing and encoding take 5, 6 and 7 milliseconds.
fn report_frame(manager: &mut StatisticsManager, timestamp: u64, start: i64) {
    manager.report_tracking_received(ms(timestamp), at(start));
    manager.report_frame_present(ms(timestamp), ms(1), at(start + 6));
    manager.report_frame_composed(ms(timestamp), ms(2), at(start + 13));
    manager.report_frame_encoded(ms(timestamp), at(start + 18));
}

#[test]
fn stages_make_up_the_latency() {
    let mut manager = manager(10);
    report_frame(&mut manager, 100, 10);
    assert!(manager.can_report(&stats(100)));
    let (network, report) = manager.report_statistics(stats(100), DEVICES, at(100));
    // 60 - (5 + 6 + 7 + 4 + 3 + 2 + 1)
    assert_eq!(network, ms(32));
    let graph = report.unwrap().graph;
    assert_eq!(graph.total_pipeline_latency, ms(60));
    assert_eq!(graph.game_time, ms(5));
    assert_eq!(graph.server_compositor, ms(6));
    assert_eq!(graph.encoder, ms(7));
    assert_eq!(graph.network, ms(32));
    assert_eq!(graph.decoder, ms(4));
    assert_eq!(graph.decoder_queue, ms(3));
    assert_eq!(graph.client_compositor, ms(2));
    assert_eq!(graph.vsync_queue, ms(1));
    assert_eq!(graph.client_frame_interval, ms(14));
    assert_eq!(graph.server_frame_interval, ms(15));
}

#[test]
fn network_latency_is_not_negative() {
    let mut manager = manager(10);
    report_frame(&mut manager, 100, 10);
    let late = ClientStatistics { total_pipeline_latency: ms(10), ..stats(100) };
    assert_eq!(manager.report_statistics(late, DEVICES, at(100)).0, Duration::ZERO);
}

#[test]
fn unknown_frame_is_not_reported() {
    let mut manager = manager(10);
    report_frame(&mut manager, 100, 10);
    let (network, report) = manager.report_statistics(stats(101), DEVICES, at(1000));
    assert_eq!(network, Duration::ZERO);
    assert!(report.is_none());
    let (_, report) = manager.report_statistics(stats(100), DEVICES, at(1000));
    assert!(report.unwrap().full.is_some());
}

#[test]
fn short_intervals_are_taken_as_a_millisecond() {
    let mut manager = manager(10);
    manager.report_tracking_received(ms(1), at(0));
    let quick = ClientStatistics { frame_interval: Duration::from_micros(10), ..stats(1) };
    let graph = manager.report_statistics(quick, DEVICES, at(0)).1.unwrap().graph;
    assert_eq!(graph.client_frame_interval, ms(1));
    assert_eq!(graph.server_frame_interval, ms(1));
}

#[test]
fn oldest_frame_is_forgotten() {
    let mut manager = manager(2);
    for timestamp in 1..4 {
        manager.report_tracking_received(ms(timestamp), at(0));
    }
    assert!(manager.report_statistics(stats(1), DEVICES, at(0)).1.is_none());
    assert!(manager.report_statistics(stats(2), DEVICES, at(0)).1.is_some());
    assert!(manager.report_statistics(stats(3), DEVICES, at(0)).1.is_some());
    manager.report_tracking_received(ms(3), at(5));
    assert!(manager.report_statistics(stats(2), DEVICES, at(0)).1.is_some());
}

#[test]
fn history_without_room_remembers_nothing() {
    let mut manager = manager(0);
    manager.report_tracking_received(ms(1), at(0));
    assert!(manager.report_statistics(stats(1), DEVICES, at(0)).1.is_none());
}

#[test]
fn full_report_comes_every_half_second() {
    let mut manager = manager(10);
    manager.report_tracking_received(ms(1), at(0));
    manager.report_video_packet(1000);
    manager.report_video_packet(500);
    manager.report_packet_loss();
    manager.report_battery(1, 0.5f32.to_bits());
    manager.report_battery(1, 0.25f32.to_bits());
    manager.report_battery(3, 1.0f32.to_bits());
    assert!(manager.report_statistics(stats(1), DEVICES, at(500)).1.unwrap().full.is_none());

    let full = manager.report_statistics(stats(1), DEVICES, at(501)).1.unwrap().full.unwrap();
    assert_eq!((full.video_packets_total, full.video_packets_partial_sum), (2, 2));
    assert_eq!((full.video_bytes_total, full.video_bytes_partial_sum), (1500, 1500));
    assert_eq!((full.packets_lost_total, full.packets_lost_partial_sum), (1, 1));
    assert_eq!(full.battery_hmd, 0.25f32.to_bits());
    assert_eq!(full.battery_left, 0);
    assert_eq!(full.battery_right, 1.0f32.to_bits());

    manager.report_video_packet(7);
    assert!(manager.report_statistics(stats(1), DEVICES, at(1000)).1.unwrap().full.is_none());
    let full = manager.report_statistics(stats(1), DEVICES, at(5000)).1.unwrap().full.unwrap();
    assert_eq!((full.video_packets_total, full.video_packets_partial_sum), (3, 1));
    assert_eq!((full.video_bytes_total, full.video_bytes_partial_sum), (1507, 7));
    assert_eq!((full.packets_lost_total, full.packets_lost_partial_sum), (1, 0));
    // The next report is due half a second after the last one was.
    assert!(manager.report_statistics(stats(1), DEVICES, at(5000)).1.unwrap().full.is_some());
}

#[test]
fn reports_count_all_and_what_is_new() {
    let mut manager = manager(10);
    manager.report_tracking_received(ms(1), at(0));
    let mut packets = 0;
    for n in 1..5usize {
        for _ in 0..n {
            manager.report_video_packet(10);
            manager.report_packet_loss();
        }
        packets += n;
        manager.report_battery(2, n as u32);
        // A report on an unknown frame starts nothing anew.
        let due = at(501 * n as i64);
        assert!(manager.report_statistics(stats(9), DEVICES, due).1.is_none());
        let full = manager.report_statistics(stats(1), DEVICES, due).1.unwrap().full.unwrap();
        assert_eq!((full.video_packets_total, full.video_packets_partial_sum), (packets, n));
        assert_eq!((full.video_bytes_total, full.video_bytes_partial_sum), (packets * 10, n * 10));
        assert_eq!((full.packets_lost_total, full.packets_lost_partial_sum), (packets, n));
        assert_eq!((full.battery_hmd, full.battery_left), (0, n as u32));
    }
}

#[test]
fn counts_have_limits() {
    let mut manager = manager(10);
    assert!(manager.can_count_packet(usize::MAX));
    manager.report_video_packet(usize::MAX);
    assert!(manager.can_count_packet(0));
    assert!(!manager.can_count_packet(1));
    assert!(manager.can_count_loss());
    manager.report_tracking_received(ms(1), at(0));
    let long = ClientStatistics {
        video_decode: Duration::MAX,
        rendering: Duration::from_nanos(1),
        video_decoder_queue: Duration::ZERO,
        vsync_queue: Duration::ZERO,
        ..stats(1)
    };
    assert!(!manager.can_report(&long));
    assert!(manager.can_report(&ClientStatistics { rendering: Duration::ZERO, ..long }));
    assert!(manager.can_report(&ClientStatistics { target_timestamp: ms(9), ..long }));
}

#[test]
fn pose_offset_is_what_the_average_latency_leaves() {
    let mut manager = manager(3);
    assert!(manager.can_average_latencies());
    assert_eq!(manager.tracker_pose_time_offset(), ms(20));
    manager.report_tracking_received(ms(1), at(0));
    let report = |manager: &mut StatisticsManager, latency: u64| {
        let stats = ClientStatistics { total_pipeline_latency: ms(latency), ..stats(1) };
        manager.report_statistics(stats, DEVICES, at(0));
        manager.tracker_pose_time_offset()
    };
    assert_eq!(report(&mut manager, 12), ms(14));
    assert_eq!(report(&mut manager, 15), ms(11));
    // The first latency, which stood in for those to come, leaves the window.
    assert_eq!(report(&mut manager, 18), ms(5));
    assert_eq!(report(&mut manager, 90), ms(0));
    // A frame that is not known has no part in the average.
    let unknown = ClientStatistics { total_pipeline_latency: ms(1), ..stats(9) };
    manager.report_statistics(unknown, DEVICES, at(0));
    assert_eq!(report(&mut manager, 0), ms(0));
    assert_eq!(report(&mut manager, 0), ms(0));
    assert_eq!(report(&mut manager, 3), ms(19));
}

#[test]
fn latencies_that_are_too_long_have_no_average() {
    let mut manager = manager(10);
    manager.report_tracking_received(ms(1), at(0));
    for possible in [true, false] {
        let long = ClientStatistics { total_pipeline_latency: Duration::MAX, ..stats(1) };
        manager.report_statistics(long, DEVICES, at(0));
        assert_eq!(manager.can_average_latencies(), possible);
    }
}

#[test]
fn default_frame_is_of_now() {
    let frame = HistoryFrame::default(at(7));
    assert_eq!(frame.target_timestamp, Duration::ZERO);
    assert_eq!(frame.total_pipeline_latency, Duration::ZERO);
    assert_eq!(frame.frame_encoded.nanos, 7_000_000);
    assert_eq!(frame.tracking_received.nanos, 7_000_000);
}

#[test]
fn time_between_instants() {
    assert_eq!(at(9).saturating_duration_since(at(4)), ms(5));
    assert_eq!(at(4).saturating_duration_since(at(9)), Duration::ZERO);
    assert_eq!(at(9).before(ms(10)).nanos, -1_000_000);
}
