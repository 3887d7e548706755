//! Averages over the samples that came last.

use crate::time::{duration_nanos, from_nanos, is_duration};
use std::collections::VecDeque;
use std::time::Duration;
use vstd::prelude::*;

verus! {

/// The samples in a window, oldest first, and how many of them are kept.
pub struct Window<T> {
    pub samples: Seq<T>,
    pub max_history_size: usize,
}

impl<T> Window<T> {
    /// The window after one more sample. A full window loses its oldest sample.
    pub open spec fn with_sample(self, sample: T) -> Window<T> {
        let kept = if self.samples.len() >= self.max_history_size && self.samples.len() > 0 {
            self.samples.skip(1)
        } else {
            self.samples
        };
        Window { samples: kept.push(sample), max_history_size: self.max_history_size }
    }

    /// How many samples a window can hold.
    pub open spec fn capacity(self) -> nat {
        if self.max_history_size == 0 {
            1
        } else {
            self.max_history_size as nat
        }
    }

    /// There is always a sample, and there are never more than fit.
    pub open spec fn wf(self) -> bool {
        1 <= self.samples.len() <= self.capacity()
    }
}

/// The sum of numbers.
pub open spec fn sum(numbers: Seq<nat>) -> nat
    decreases numbers.len(),
{
    if numbers.len() == 0 {
        0
    } else {
        sum(numbers.drop_last()) + numbers.last()
    }
}

/// Taking numbers away does not make their sum larger.
proof fn lemma_sum_of_part(numbers: Seq<nat>, count: int)
    requires
        0 <= count <= numbers.len(),
    ensures
        sum(numbers.take(count)) <= sum(numbers),
    decreases numbers.len(),
{
    if count == numbers.len() {
        assert(numbers.take(count) =~= numbers);
    } else {
        assert(numbers.drop_last().take(count) =~= numbers.take(count));
        lemma_sum_of_part(numbers.drop_last(), count);
    }
}

/// The average of the samples that came last.
pub struct SlidingWindowAverage<T> {
    history_buffer: VecDeque<T>,
    max_history_size: usize,
}

impl<T> View for SlidingWindowAverage<T> {
    type V = Window<T>;

    closed spec fn view(&self) -> Window<T> {
        Window { samples: self.history_buffer@, max_history_size: self.max_history_size }
    }
}

impl<T> SlidingWindowAverage<T> {
    pub fn new(initial_value: T, max_history_size: usize) -> (average: Self)
        ensures
            average@ == (Window { samples: seq![initial_value], max_history_size }),
            average@.wf(),
    {
        let mut history_buffer: VecDeque<T> = VecDeque::new();
        history_buffer.push_back(initial_value);
        assert(history_buffer@ =~= seq![initial_value]);
        SlidingWindowAverage { history_buffer, max_history_size }
    }

    pub fn submit_sample(&mut self, sample: T)
        ensures
            final(self)@ == old(self)@.with_sample(sample),
            old(self)@.wf() ==> final(self)@.wf(),
    {
        if self.history_buffer.len() >= self.max_history_size {
            self.history_buffer.pop_front();
        }
        self.history_buffer.push_back(sample);
        assert(self@.samples =~= old(self)@.with_sample(sample).samples);
    }

    /// The samples in the window, oldest first.
    pub fn samples(&self) -> (samples: &VecDeque<T>)
        ensures
            samples@ == self@.samples,
    {
        &self.history_buffer
    }
}

/// Samples as numbers.
pub open spec fn numbers_64(samples: Seq<u64>) -> Seq<nat> {
    samples.map_values(|sample: u64| sample as nat)
}

impl SlidingWindowAverage<u64> {
    pub fn get_average(&self) -> (average: u64)
        requires
            self@.wf(),
            sum(numbers_64(self@.samples)) <= u64::MAX,
        ensures
            average == sum(numbers_64(self@.samples)) / self@.samples.len(),
    {
        let count: usize = self.history_buffer.len();
        let ghost numbers = numbers_64(self@.samples);
        let mut total: u64 = 0;
        let mut i: usize = 0;
        while i < count
            invariant
                i <= count,
                count == self.history_buffer@.len(),
                numbers == numbers_64(self.history_buffer@),
                total == sum(numbers.take(i as int)),
                sum(numbers) <= u64::MAX,
            decreases count - i,
        {
            proof {
                assert(numbers.take(i + 1).drop_last() =~= numbers.take(i as int));
                lemma_sum_of_part(numbers, i + 1);
            }
            total = total + self.history_buffer[i];
            i += 1;
        }
        assert(numbers.take(count as int) =~= numbers);
        total / (count as u64)
    }
}

/// Sizes as numbers.
pub open spec fn numbers_size(samples: Seq<usize>) -> Seq<nat> {
    samples.map_values(|sample: usize| sample as nat)
}

impl SlidingWindowAverage<usize> {
    pub fn get_average(&self) -> (average: usize)
        requires
            self@.wf(),
            sum(numbers_size(self@.samples)) <= usize::MAX,
        ensures
            average == sum(numbers_size(self@.samples)) / self@.samples.len(),
    {
        let count: usize = self.history_buffer.len();
        let ghost numbers = numbers_size(self@.samples);
        let mut total: usize = 0;
        let mut i: usize = 0;
        while i < count
            invariant
                i <= count,
                count == self.history_buffer@.len(),
                numbers == numbers_size(self.history_buffer@),
                total == sum(numbers.take(i as int)),
                sum(numbers) <= usize::MAX,
            decreases count - i,
        {
            proof {
                assert(numbers.take(i + 1).drop_last() =~= numbers.take(i as int));
                lemma_sum_of_part(numbers, i + 1);
            }
            total = total + self.history_buffer[i];
            i += 1;
        }
        assert(numbers.take(count as int) =~= numbers);
        total / count
    }
}

/// Lengths of time as numbers of nanoseconds.
pub open spec fn numbers_of_nanos(samples: Seq<Duration>) -> Seq<nat> {
    samples.map_values(|sample: Duration| duration_nanos(sample))
}

/// A window of lengths of time in nanoseconds.
pub open spec fn window_nanos(window: Window<Duration>) -> Window<nat> {
    Window {
        samples: numbers_of_nanos(window.samples),
        max_history_size: window.max_history_size,
    }
}

/// A sample enters a window of lengths of time as its number of nanoseconds.
pub proof fn lemma_window_nanos(window: Window<Duration>, sample: Duration)
    ensures
        window_nanos(window.with_sample(sample)) == window_nanos(window).with_sample(
            duration_nanos(sample),
        ),
{
    assert(window_nanos(window.with_sample(sample)).samples =~= window_nanos(window).with_sample(
        duration_nanos(sample),
    ).samples);
}

/// Lengths of time have an average if their sum is a length of time. The number of samples is
/// taken as a `u32`.
pub open spec fn has_average(nanos: Seq<nat>) -> bool {
    is_duration(sum(nanos) as int) && nanos.len() as u32 != 0
}

/// The average of lengths of time. The number of samples is taken as a `u32`.
pub open spec fn average_nanos(nanos: Seq<nat>) -> nat {
    sum(nanos) / (nanos.len() as u32 as nat)
}

impl SlidingWindowAverage<Duration> {
    /// The sum of the samples in nanoseconds, if it is a length of time.
    fn total_nanos(&self) -> (total: Option<u128>)
        ensures
            total == if is_duration(sum(numbers_of_nanos(self@.samples)) as int) {
                Some(sum(numbers_of_nanos(self@.samples)) as u128)
            } else {
                None
            },
    {
        let count: usize = self.history_buffer.len();
        let ghost numbers = numbers_of_nanos(self@.samples);
        let mut total: u128 = 0;
        let mut i: usize = 0;
        while i < count
            invariant
                i <= count,
                count == self.history_buffer@.len(),
                numbers == numbers_of_nanos(self.history_buffer@),
                numbers == numbers_of_nanos(self@.samples),
                total == sum(numbers.take(i as int)),
                is_duration(total as int),
            decreases count - i,
        {
            total = total + self.history_buffer[i].as_nanos();
            proof {
                assert(numbers.take(i + 1).drop_last() =~= numbers.take(i as int));
                assert(numbers.take(i + 1).last() == numbers[i as int]);
                lemma_sum_of_part(numbers, i + 1);
            }
            if total >= 0x1_0000_0000_0000_0000 * 1_000_000_000 {
                return None;
            }
            i += 1;
        }
        assert(numbers.take(count as int) =~= numbers);
        Some(total)
    }

    /// Tells whether there is an average.
    pub fn can_average(&self) -> (possible: bool)
        ensures
            possible == has_average(numbers_of_nanos(self@.samples)),
    {
        let count: usize = self.history_buffer.len();
        self.total_nanos().is_some() && count as u32 != 0
    }

    pub fn get_average(&self) -> (average: Duration)
        requires
            has_average(numbers_of_nanos(self@.samples)),
        ensures
            duration_nanos(average) == average_nanos(numbers_of_nanos(self@.samples)),
    {
        let total: u128 = match self.total_nanos() {
            Some(total) => total,
            None => 0,
        };
        let divisor: u32 = self.history_buffer.len() as u32;
        assert(total / divisor as u128 <= total) by (nonlinear_arith)
            requires
                divisor > 0,
        ;
        from_nanos(total / divisor as u128)
    }
}

/// The window after a number of samples, submitted one after the other.
pub open spec fn with_samples<T>(window: Window<T>, samples: Seq<T>) -> Window<T>
    decreases samples.len(),
{
    if samples.len() == 0 {
        window
    } else {
        with_samples(window, samples.drop_last()).with_sample(samples.last())
    }
}

/// A window holds the latest samples, in the order in which they were submitted: all of them
/// while they fit, and as many as fit from then on.
pub proof fn law_window_holds_latest_samples<T>(window: Window<T>, samples: Seq<T>)
    requires
        window.wf(),
    ensures
        ({
            let all = window.samples + samples;
            let count = if all.len() <= window.capacity() {
                all.len()
            } else {
                window.capacity()
            };
            with_samples(window, samples) == (Window {
                samples: all.skip(all.len() - count),
                max_history_size: window.max_history_size,
            })
        }),
    decreases samples.len(),
{
    let all = window.samples + samples;
    if samples.len() == 0 {
        assert(all.skip(0) =~= window.samples);
    } else {
        law_window_holds_latest_samples(window, samples.drop_last());
        let before = with_samples(window, samples.drop_last());
        let count = if all.len() <= window.capacity() {
            all.len()
        } else {
            window.capacity()
        };
        assert(before.with_sample(samples.last()).samples =~= all.skip(all.len() - count));
    }
}

/// An average lies between bounds of the samples.
pub proof fn law_average_is_between(numbers: Seq<nat>, low: nat, high: nat)
    requires
        numbers.len() > 0,
        forall|i: int| 0 <= i < numbers.len() ==> low <= #[trigger] numbers[i] <= high,
    ensures
        low <= sum(numbers) / numbers.len() <= high,
{
    lemma_sum_is_between(numbers, low, high);
    let total = sum(numbers);
    let count = numbers.len();
    assert(low <= total / count <= high) by (nonlinear_arith)
        requires
            low * count <= total <= high * count,
            count > 0,
    ;
}

proof fn lemma_sum_is_between(numbers: Seq<nat>, low: nat, high: nat)
    requires
        forall|i: int| 0 <= i < numbers.len() ==> low <= #[trigger] numbers[i] <= high,
    ensures
        low * numbers.len() <= sum(numbers) <= high * numbers.len(),
    decreases numbers.len(),
{
    let count = numbers.len();
    if count == 0 {
        assert(low * count == 0 && high * count == 0) by (nonlinear_arith)
            requires
                count == 0,
        ;
    } else {
        lemma_sum_is_between(numbers.drop_last(), low, high);
        assert(low * count == low * (count - 1) + low && high * count == high * (count - 1) + high)
            by (nonlinear_arith);
    }
}

/// Up to a billion lengths of time, each with nanoseconds that a `u64` counts, have an average.
pub proof fn law_windows_have_average(nanos: Seq<nat>)
    requires
        1 <= nanos.len() <= 1_000_000_000,
        forall|i: int| 0 <= i < nanos.len() ==> #[trigger] nanos[i] <= u64::MAX,
    ensures
        has_average(nanos),
{
    lemma_sum_is_between(nanos, 0, u64::MAX as nat);
    let count = nanos.len();
    assert(0xffff_ffff_ffff_ffff * count < 0x1_0000_0000_0000_0000 * 1_000_000_000)
        by (nonlinear_arith)
        requires
            count <= 1_000_000_000,
    ;
}

/// A sample that enters a window comes last in it. A window of that size or more loses its oldest
/// sample, and no other sample is lost or changed.
pub proof fn law_sample_enters_the_window<T>(window: Window<T>, sample: T, i: int)
    requires
        1 <= window.samples.len(),
        0 <= i < window.samples.len(),
    ensures
        ({
            let later = window.with_sample(sample).samples;
            let lost: int = if window.samples.len() >= window.max_history_size {
                1
            } else {
                0
            };
            &&& window.with_sample(sample).max_history_size == window.max_history_size
            &&& later.len() == window.samples.len() + 1 - lost
            &&& later[later.len() - 1] == sample
            &&& i >= lost ==> later[i - lost] == window.samples[i]
        }),
{
}

/// The sum of numbers is that of any two parts of them, and a single number is its own sum.
pub proof fn law_sum_is_that_of_the_parts(first: Seq<nat>, second: Seq<nat>, number: nat)
    ensures
        sum(first + second) == sum(first) + sum(second),
        sum(seq![number]) == number,
        sum(Seq::empty()) == 0,
    decreases second.len(),
{
    reveal_with_fuel(sum, 2);
    assert(seq![number].drop_last() =~= Seq::empty());
    if second.len() == 0 {
        assert(first + second =~= first);
    } else {
        assert((first + second).drop_last() =~= first + second.drop_last());
        law_sum_is_that_of_the_parts(first, second.drop_last(), number);
    }
}

/// The average of lengths of time, as often as there are samples, makes up their sum but for a rest
/// that is smaller than the number of samples.
pub proof fn law_average_makes_up_the_sum(nanos: Seq<nat>)
    requires
        1 <= nanos.len() <= u32::MAX,
    ensures
        average_nanos(nanos) * nanos.len() <= sum(nanos),
        sum(nanos) < (average_nanos(nanos) + 1) * nanos.len(),
{
    let total = sum(nanos);
    let count = nanos.len();
    assert(count as u32 as nat == count);
    assert(total / count * count <= total < (total / count + 1) * count) by (nonlinear_arith)
        requires
            count > 0,
    ;
}

/// The samples of a window are taken as they are, a length of time in nanoseconds.
pub proof fn law_samples_are_taken_as_they_are(
    numbers: Seq<u64>,
    sizes: Seq<usize>,
    window: Window<Duration>,
)
    ensures
        numbers_64(numbers).len() == numbers.len(),
        forall|i: int|
            0 <= i < numbers.len() ==> #[trigger] numbers_64(numbers)[i] == numbers[i],
        numbers_size(sizes).len() == sizes.len(),
        forall|i: int| 0 <= i < sizes.len() ==> #[trigger] numbers_size(sizes)[i] == sizes[i],
        window_nanos(window).samples.len() == window.samples.len(),
        forall|i: int|
            0 <= i < window.samples.len() ==> #[trigger] window_nanos(window).samples[i]
                == duration_nanos(window.samples[i]),
        window_nanos(window).samples == numbers_of_nanos(window.samples),
        window_nanos(window).max_history_size == window.max_history_size,
{
}

/// Some lengths of time, but not more than a `u32` can count, have an average if and only if their
/// sum has fewer than 2^64 seconds. No lengths of time have none.
pub proof fn law_average_is_that_of_a_possible_sum(nanos: Seq<nat>)
    requires
        nanos.len() <= u32::MAX,
    ensures
        has_average(nanos) <==> nanos.len() > 0 && sum(nanos) < 0x1_0000_0000_0000_0000
            * 1_000_000_000,
{
}

} // verus!
