use alvr_core::bitrate::{
    AdaptToFramerate, AdaptiveBitrate, BitrateConfig, BitrateManager, BitrateMode, BitrateQuery,
    DecoderLatencyFixer, FramerateQuery, Switch, INITIAL_BITRATE_BITS, MAX_BITRATE_BITS,
};
use alvr_core::time::Instant;
use std::time::Duration;

fn at(millis: i64) -> Instant {
    Instant { nanos: millis * 1_000_000 }
}

fn ms(millis: u64) -> Duration {
    Duration::from_millis(millis)
}

fn adaptive(adapt_to_framerate: bool) -> BitrateConfig {
    BitrateConfig {
        mode: BitrateMode::Adaptive(AdaptiveBitrate {
            saturation_multiplier_bits: 0.95f32.to_bits(),
            max_bitrate_mbps: Switch::Enabled(100),
            min_bitrate_mbps: Switch::Disabled,
            max_network_latency_ms: Switch::Enabled(8),
            decoder_latency_fixer: Switch::Enabled(DecoderLatencyFixer {
                max_decoder_latency_ms: 30,
                latency_overstep_frames: 3,
                latency_overstep_multiplier_bits: 0.99f32.to_bits(),
            }),
        }),
        adapt_to_framerate: if adapt_to_framerate {
            Switch::Enabled(AdaptToFramerate {
                framerate_reset_threshold_multiplier_bits: 2.0f32.to_bits(),
            })
        } else {
            Switch::Disabled
        },
    }
}

fn manager(adapt_to_framerate: bool) -> BitrateManager {
    BitrateManager::new(adaptive(adapt_to_framerate), 4, 72.0f32.to_bits(), at(0))
}

#[test]
fn initial_bitrates_are_known_numbers() {
    assert_eq!(INITIAL_BITRATE_BITS, 30_000_000.0f32.to_bits());
    assert_eq!(MAX_BITRATE_BITS, f32::MAX.to_bits());
    let manager = manager(false);
    let bitrates: Vec<u32> = manager.bitrates().iter().copied().collect();
    assert_eq!(bitrates, vec![INITIAL_BITRATE_BITS]);
    assert_eq!(manager.dynamic_max_bitrate(), MAX_BITRATE_BITS);
}

#[test]
fn interval_is_held_against_the_average_before() {
    let mut manager = manager(true);
    let check = manager.report_frame_present(at(20)).unwrap();
    assert_eq!(check.interval, ms(20));
    assert_eq!(check.average, ms(16));
    assert_eq!(check.threshold_multiplier_bits, 2.0f32.to_bits());
    manager.settle_interval(check.interval, false);
    let check = manager.report_frame_present(at(30)).unwrap();
    assert_eq!(check.interval, ms(10));
    assert_eq!(check.average, ms(18));
    assert!(manager.can_average_intervals());
}

#[test]
fn interval_that_deviates_starts_a_new_average() {
    let mut manager = manager(true);
    let check = manager.report_frame_present(at(100)).unwrap();
    manager.settle_interval(check.interval, true);
    let check = manager.report_frame_present(at(150)).unwrap();
    assert_eq!(check.interval, ms(50));
    assert_eq!(check.average, ms(100));
}

#[test]
fn intervals_are_not_measured_for_a_fixed_frame_rate() {
    let mut manager = manager(false);
    assert!(manager.report_frame_present(at(20)).is_none());
    let query = manager.get_encoder_params(at(21)).unwrap();
    match query.framerate {
        FramerateQuery::Nominal { framerate_bits } => assert_eq!(framerate_bits, 72.0f32.to_bits()),
        FramerateQuery::Measured { .. } => panic!("measured"),
    }
}

#[test]
fn size_is_found_by_its_timestamp() {
    let mut manager = manager(false);
    manager.report_encoded_frame_size(ms(1), 100);
    manager.report_encoded_frame_size(ms(2), 200);
    manager.report_encoded_frame_size(ms(3), 300);
    let reaction = manager.report_frame_latencies(ms(2), ms(5), ms(1));
    assert_eq!(reaction.size_bits, Some(1600));
    assert_eq!(reaction.limit_multiplier_bits, None);
    assert_eq!(manager.report_frame_latencies(ms(1), ms(5), ms(1)).size_bits, None);
    assert_eq!(manager.report_frame_latencies(ms(3), ms(5), ms(1)).size_bits, None);
}

#[test]
fn frame_without_network_latency_is_passed_over() {
    let mut manager = manager(false);
    manager.report_encoded_frame_size(ms(1), 100);
    let reaction = manager.report_frame_latencies(ms(1), Duration::ZERO, ms(1000));
    assert_eq!(reaction.size_bits, None);
    assert_eq!(reaction.limit_multiplier_bits, None);
    assert_eq!(manager.report_frame_latencies(ms(1), ms(5), ms(1)).size_bits, Some(800));
}

#[test]
fn limit_comes_after_frames_in_a_row() {
    let mut manager = manager(false);
    let limits = |manager: &mut BitrateManager, latency: u64| {
        assert!(manager.can_count_overstep());
        manager.report_frame_latencies(ms(0), ms(5), ms(latency)).limit_multiplier_bits
    };
    assert_eq!(limits(&mut manager, 31), None);
    assert_eq!(limits(&mut manager, 31), None);
    assert_eq!(limits(&mut manager, 30), None);
    assert_eq!(limits(&mut manager, 31), None);
    assert_eq!(limits(&mut manager, 40), None);
    assert_eq!(limits(&mut manager, 31), Some(0.99f32.to_bits()));
    assert_eq!(limits(&mut manager, 31), None);
}

#[test]
fn limit_needs_a_new_row_of_frames_each_time() {
    let mut manager = manager(false);
    let mut limits = vec![];
    for n in 0..9u32 {
        let reaction = manager.report_frame_latencies(ms(0), ms(5), ms(31));
        if let Some(multiplier_bits) = reaction.limit_multiplier_bits {
            assert_eq!(multiplier_bits, 0.99f32.to_bits());
            manager.limit_bitrate(n);
            limits.push(n);
        }
        manager.submit_bitrate(n);
        // A frame that was not on the network neither adds to the row nor ends it.
        manager.report_frame_latencies(ms(0), Duration::ZERO, ms(1));
    }
    assert_eq!(limits, vec![2, 5, 8]);
    assert_eq!(manager.dynamic_max_bitrate(), 8);
}

#[test]
fn samples_enter_the_window() {
    let mut manager = manager(false);
    for n in 0..5u32 {
        manager.submit_bitrate(n);
    }
    assert_eq!(manager.bitrates().iter().copied().collect::<Vec<u32>>(), vec![1, 2, 3, 4]);
    manager.limit_bitrate(17);
    assert_eq!(manager.dynamic_max_bitrate(), 17);
}

#[test]
fn encoder_query_holds_what_is_needed() {
    let mut manager = manager(true);
    manager.limit_bitrate(17);
    let query = manager.get_encoder_params(at(0)).unwrap();
    match query.bitrate {
        BitrateQuery::Adaptive {
            saturation_multiplier_bits,
            max_bitrate_mbps,
            min_bitrate_mbps,
            max_network_latency_ms,
            network_latency_average,
            dynamic_max_bitrate_bits,
        } => {
            assert_eq!(saturation_multiplier_bits, 0.95f32.to_bits());
            assert!(matches!(max_bitrate_mbps, Switch::Enabled(100)));
            assert!(!min_bitrate_mbps.enabled());
            assert!(max_network_latency_ms.enabled());
            assert_eq!(network_latency_average, ms(5));
            assert_eq!(dynamic_max_bitrate_bits, 17);
        }
        BitrateQuery::ConstantMbps(_) => panic!("constant"),
    }
    match query.framerate {
        FramerateQuery::Measured { interval_average } => assert_eq!(interval_average, ms(16)),
        FramerateQuery::Nominal { .. } => panic!("nominal"),
    }
}

#[test]
fn constant_bitrate_is_passed_on() {
    let config = BitrateConfig {
        mode: BitrateMode::ConstantMbps(30),
        adapt_to_framerate: Switch::Disabled,
    };
    let mut manager = BitrateManager::new(config, 4, 0, at(0));
    let query = manager.get_encoder_params(at(0)).unwrap();
    assert!(matches!(query.bitrate, BitrateQuery::ConstantMbps(30)));
    assert_eq!(manager.report_frame_latencies(ms(0), ms(5), ms(500)).limit_multiplier_bits, None);
}

#[test]
fn encoder_gets_parameters_from_the_start() {
    let mut manager = manager(false);
    assert!(manager.get_encoder_params(at(0)).is_some());
    assert!(manager.get_encoder_params(at(1)).is_some());
}
