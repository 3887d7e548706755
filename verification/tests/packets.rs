use alvr_core::packets::{
    parse_path, ClientStatistics, PathSegment, AUDIO, HAPTICS, STATISTICS, TRACKING, VIDEO,
};
use std::time::Duration;

fn texts(path: &str) -> Vec<String> {
    parse_path(path).iter().map(|segment| segment.debug_text()).collect()
}

#[test]
fn path_is_cut_at_its_dots() {
    assert_eq!(texts("session_settings.video.fps"), vec!["session_settings", "video", "fps"]);
    assert_eq!(texts("a"), vec!["a"]);
    assert_eq!(texts(""), vec![""]);
    assert_eq!(texts("."), vec!["", ""]);
    assert_eq!(texts("a..b."), vec!["a", "", "b", ""]);
    assert_eq!(texts("é.ü"), vec!["é", "ü"]);
}

#[test]
fn parts_make_up_the_path() {
    for path in ["a.b.c", "", "..", "x"] {
        assert_eq!(texts(path).join("."), path);
    }
}

#[test]
fn segments_are_shown() {
    assert_eq!(PathSegment::from("name").debug_text(), "name");
    assert_eq!(PathSegment::from(String::from("other")).debug_text(), "other");
    assert_eq!(PathSegment::from(0usize).debug_text(), "[0]");
    assert_eq!(PathSegment::from(10203usize).debug_text(), "[10203]");
    assert_eq!(PathSegment::from(usize::MAX).debug_text(), format!("[{}]", usize::MAX));
}

#[test]
fn streams_have_numbers() {
    assert_eq!([TRACKING, HAPTICS, AUDIO, VIDEO, STATISTICS], [0, 1, 2, 3, 4]);
}

#[test]
fn statistics_start_at_zero() {
    let statistics = ClientStatistics::default();
    assert_eq!(statistics.target_timestamp, Duration::ZERO);
    assert_eq!(statistics.frame_interval, Duration::ZERO);
    assert_eq!(statistics.total_pipeline_latency, Duration::ZERO);
}
