use alvr_core::average::SlidingWindowAverage;
use std::time::Duration;

#[test]
fn average_of_numbers() {
    let mut average: SlidingWindowAverage<u64> = SlidingWindowAverage::new(10, 3);
    assert_eq!(average.get_average(), 10);
    average.submit_sample(21);
    assert_eq!(average.get_average(), 15);
    average.submit_sample(30);
    assert_eq!(average.get_average(), 20);
    average.submit_sample(3);
    assert_eq!(average.get_average(), 18);
}

#[test]
fn average_of_sizes() {
    let mut average: SlidingWindowAverage<usize> = SlidingWindowAverage::new(4, 2);
    average.submit_sample(7);
    assert_eq!(average.get_average(), 5);
    average.submit_sample(8);
    assert_eq!(average.get_average(), 7);
}

#[test]
fn average_of_durations() {
    let mut average = SlidingWindowAverage::new(Duration::from_millis(10), 2);
    assert_eq!(average.get_average(), Duration::from_millis(10));
    average.submit_sample(Duration::from_nanos(5_000_001));
    assert_eq!(average.get_average(), Duration::from_nanos(7_500_000));
    average.submit_sample(Duration::from_secs(1));
    assert_eq!(average.get_average(), Duration::from_nanos(502_500_000));
}

#[test]
fn sum_of_durations_has_to_be_one() {
    let mut average = SlidingWindowAverage::new(Duration::MAX, 3);
    assert!(average.can_average());
    assert_eq!(average.get_average(), Duration::MAX);
    average.submit_sample(Duration::from_nanos(1));
    assert!(!average.can_average());
}

#[test]
fn window_holds_the_latest_samples() {
    let mut average: SlidingWindowAverage<u32> = SlidingWindowAverage::new(1, 3);
    for sample in 2..7 {
        average.submit_sample(sample);
    }
    let samples: Vec<u32> = average.samples().iter().copied().collect();
    assert_eq!(samples, vec![4, 5, 6]);
}

#[test]
fn window_without_room_holds_one_sample() {
    let mut average: SlidingWindowAverage<u64> = SlidingWindowAverage::new(1, 0);
    average.submit_sample(5);
    assert_eq!(average.get_average(), 5);
    average.submit_sample(9);
    assert_eq!(average.get_average(), 9);
    assert_eq!(average.samples().len(), 1);
}
