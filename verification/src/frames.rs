//! How long frames take.
use crate::clock::{millis, millis_to_nanos};
use vstd::prelude::*;
use vstd::relations::{sorted_by, total_ordering};
use vstd::seq_lib::{group_to_multiset_ensures, lemma_sorted_unique};

verus! {

/// After how many frames a summary is written.
pub const FRAME_SUMMARY_INTERVAL: u64 = 300;

/// 16 milliseconds, in nanoseconds.
pub const MILLIS_16: u128 = 16_000_000;

/// 32 milliseconds, in nanoseconds.
pub const MILLIS_32: u128 = 32_000_000;

/// `samples` in ascending order.
pub open spec fn ordered(samples: Seq<u128>) -> Seq<u128> {
    samples.sort_by(|a: u128, b: u128| a <= b)
}

/// How many of the samples are over `bound`.
pub open spec fn count_over(samples: Seq<u128>, bound: u128) -> nat
    decreases samples.len(),
{
    if samples.len() == 0 {
        0
    } else {
        count_over(samples.drop_last(), bound) + if samples.last() > bound {
            1nat
        } else {
            0nat
        }
    }
}

/// The largest sample; 0 where there is none.
pub open spec fn largest(samples: Seq<u128>) -> u128
    decreases samples.len(),
{
    if samples.len() == 0 {
        0
    } else {
        let before = largest(samples.drop_last());
        if samples.last() > before {
            samples.last()
        } else {
            before
        }
    }
}

/// `percent`, but not less than 0 and not more than 100.
pub open spec fn clamped(percent: int) -> int {
    if percent < 0 {
        0
    } else if percent > 100 {
        100
    } else {
        percent
    }
}

/// The index that lies `percent` of the way from the first of `len` places to the last,
/// rounded to the nearest place, and upwards from the middle between two.
pub open spec fn rank(len: int, percent: int) -> int {
    ((len - 1) * clamped(percent) + 50) / 100
}

/// The sample at `percent`; 0 where there is none.
pub open spec fn sample_at(sorted: Seq<u128>, percent: int) -> u128 {
    if sorted.len() == 0 {
        0
    } else {
        sorted[rank(sorted.len() as int, percent)]
    }
}

/// The rank lies among the places, and is the nearest one.
pub proof fn rank_is_the_nearest_place(len: int, percent: int)
    requires
        len > 0,
    ensures
        0 <= rank(len, percent) < len,
        -50 <= 100 * rank(len, percent) - (len - 1) * clamped(percent) <= 50,
{
    let p = clamped(percent);
    assert(0 <= (len - 1) * p <= (len - 1) * 100) by (nonlinear_arith)
        requires
            0 <= p <= 100,
            len > 0,
    ;
}

/// The ends are the smallest and the largest sample, and whoever asks for more gets no less.
pub proof fn percentiles_rise(sorted: Seq<u128>, low: int, high: int)
    requires
        sorted.len() > 0,
        forall|i: int, j: int| 0 <= i <= j < sorted.len() ==> sorted[i] <= sorted[j],
        low <= high,
    ensures
        sample_at(sorted, low) <= sample_at(sorted, high),
        low <= 0 ==> sample_at(sorted, low) == sorted[0],
        high >= 100 ==> sample_at(sorted, high) == sorted.last(),
{
    let len = sorted.len() as int;
    rank_is_the_nearest_place(len, low);
    rank_is_the_nearest_place(len, high);
    let a = clamped(low);
    let b = clamped(high);
    assert((len - 1) * a <= (len - 1) * b) by (nonlinear_arith)
        requires
            a <= b,
            len > 0,
    ;
    assert((len - 1) * 0 == 0) by (nonlinear_arith);
    assert((len - 1) * 100 == 100 * (len - 1)) by (nonlinear_arith);
    assert(rank(len, low) <= rank(len, high));
}

/// What has been measured since the last summary. Times are in nanoseconds.
#[derive(Debug)]
pub struct FrameMetrics {
    /// The time of each frame, in the order in which the frames ended.
    pub samples: Vec<u128>,
    /// The longest of them.
    pub max: u128,
    /// How many took over 16 ms.
    pub over_16ms: u64,
    /// How many took over 32 ms.
    pub over_32ms: u64,
    /// How many took longer than the threshold of the moment.
    pub over_threshold: u64,
}

/// What a [`FrameMetrics`] holds.
pub struct MetricsView {
    pub samples: Seq<u128>,
    pub max: u128,
    pub over_16ms: int,
    pub over_32ms: int,
    pub over_threshold: int,
}

impl View for FrameMetrics {
    type V = MetricsView;

    open spec fn view(&self) -> MetricsView {
        MetricsView {
            samples: self.samples@,
            max: self.max,
            over_16ms: self.over_16ms as int,
            over_32ms: self.over_32ms as int,
            over_threshold: self.over_threshold as int,
        }
    }
}

/// One, if `yes`.
pub open spec fn one_if(yes: bool) -> int {
    if yes {
        1
    } else {
        0
    }
}

impl MetricsView {
    /// Nothing measured.
    pub open spec fn nothing() -> MetricsView {
        MetricsView {
            samples: Seq::empty(),
            max: 0,
            over_16ms: 0,
            over_32ms: 0,
            over_threshold: 0,
        }
    }

    /// The counters agree with the samples.
    pub open spec fn well_formed(self) -> bool {
        &&& self.max == largest(self.samples)
        &&& self.over_16ms == count_over(self.samples, MILLIS_16)
        &&& self.over_32ms == count_over(self.samples, MILLIS_32)
        &&& 0 <= self.over_threshold <= self.samples.len()
    }

    /// With one more frame, which took `elapsed`.
    pub open spec fn with(self, elapsed: u128, threshold_ms: u64) -> MetricsView {
        MetricsView {
            samples: self.samples.push(elapsed),
            max: if elapsed > self.max {
                elapsed
            } else {
                self.max
            },
            over_16ms: self.over_16ms + one_if(elapsed > MILLIS_16),
            over_32ms: self.over_32ms + one_if(elapsed > MILLIS_32),
            over_threshold: self.over_threshold + one_if(elapsed > millis(threshold_ms)),
        }
    }

    /// What is kept at the end of frame `frame`, which took `elapsed`: a summary starts anew.
    pub open spec fn after_frame(
        self,
        frame: u64,
        elapsed: u128,
        threshold_ms: u64,
    ) -> MetricsView {
        if summary_is_due(frame) {
            MetricsView::nothing()
        } else {
            self.with(elapsed, threshold_ms)
        }
    }

    /// Whether `summary` is the summary of these metrics through frame `frame`.
    pub open spec fn summed_up(self, frame: u64, threshold_ms: u64, summary: FrameSummary) -> bool {
        &&& summary.frame == frame
        &&& summary.samples == self.samples.len()
        &&& summary.p50 == sample_at(ordered(self.samples), 50)
        &&& summary.p95 == sample_at(ordered(self.samples), 95)
        &&& summary.p99 == sample_at(ordered(self.samples), 99)
        &&& summary.max == self.max
        &&& summary.over_16ms == self.over_16ms
        &&& summary.over_32ms == self.over_32ms
        &&& summary.threshold_ms == threshold_ms
        &&& summary.over_threshold == self.over_threshold
    }
}

/// Whether a summary is due at the end of this frame.
pub open spec fn summary_is_due(frame: u64) -> bool {
    frame > 0 && frame % FRAME_SUMMARY_INTERVAL == 0
}

/// What is said of the frames since the last summary. Times are in nanoseconds.
#[derive(Debug, Clone, Copy)]
pub struct FrameSummary {
    /// The frame that it goes up to.
    pub frame: u64,
    /// How many frames were measured.
    pub samples: u64,
    /// The time that half of the frames stayed below.
    pub p50: u128,
    /// The time that 95 of 100 frames stayed below.
    pub p95: u128,
    /// The time that 99 of 100 frames stayed below.
    pub p99: u128,
    /// The time of the longest frame.
    pub max: u128,
    /// How many frames took over 16 ms.
    pub over_16ms: u64,
    /// How many frames took over 32 ms.
    pub over_32ms: u64,
    /// The threshold for slow frames, in milliseconds.
    pub threshold_ms: u64,
    /// How many frames were slow.
    pub over_threshold: u64,
}

/// A frame only adds to what was measured, and the counters go on to agree with the samples.
pub proof fn measuring_keeps_the_counters_right(
    metrics: MetricsView,
    elapsed: u128,
    threshold_ms: u64,
)
    requires
        metrics.well_formed(),
    ensures
        metrics.with(elapsed, threshold_ms).well_formed(),
{
    assert(metrics.samples.push(elapsed).drop_last() =~= metrics.samples);
}

proof fn lemma_count_bounded(samples: Seq<u128>, bound: u128)
    ensures
        count_over(samples, bound) <= samples.len(),
    decreases samples.len(),
{
    if samples.len() > 0 {
        lemma_count_bounded(samples.drop_last(), bound);
    }
}

/// Puts `value` in its place among sorted values.
fn insert_sorted(values: &mut Vec<u128>, value: u128)
    requires
        sorted_by(old(values)@, |a: u128, b: u128| a <= b),
    ensures
        sorted_by(final(values)@, |a: u128, b: u128| a <= b),
        final(values)@.to_multiset() == old(values)@.to_multiset().insert(value),
{
    let mut at: usize = values.len();
    while at > 0 && values[at - 1] > value
        invariant
            values@ == old(values)@,
            at <= values@.len(),
            forall|j: int| at <= j < values@.len() ==> values@[j] > value,
        decreases at,
    {
        at = at - 1;
    }
    values.insert(at, value);
    proof {
        let leq = |a: u128, b: u128| a <= b;
        let before = old(values)@;
        let after = values@;
        assert(after =~= before.insert(at as int, value));
        assert forall|i: int, j: int| 0 <= i < j < after.len() implies #[trigger] leq(
            after[i],
            after[j],
        ) by {
            let i0 = if i < at {
                i
            } else {
                i - 1
            };
            let j0 = if j < at {
                j
            } else {
                j - 1
            };
            if i == at {
                assert(after[j] == before[j - 1]);
            } else if j == at {
                assert(after[i] == before[i]);
                if i < at - 1 {
                    assert(leq(before[i], before[at - 1]));
                }
            } else {
                assert(after[i] == before[i0]);
                assert(after[j] == before[j0]);
                assert(leq(before[i0], before[j0]));
            }
        }
        broadcast use group_to_multiset_ensures;
        broadcast use vstd::multiset::group_multiset_axioms;

        assert(after.remove(at as int) =~= before);
        assert(after[at as int] == value);
        assert(after.contains(value));
        assert(after.to_multiset().count(value) > 0);
        assert(after.to_multiset() =~= before.to_multiset().insert(value));
    }
}

/// The samples in ascending order.
pub(crate) fn sort_samples(samples: &Vec<u128>) -> (sorted: Vec<u128>)
    ensures
        sorted@ == ordered(samples@),
{
    let mut sorted: Vec<u128> = Vec::new();
    let mut i: usize = 0;
    assert(samples@.take(0) =~= sorted@);
    while i < samples.len()
        invariant
            i <= samples@.len(),
            sorted_by(sorted@, |a: u128, b: u128| a <= b),
            sorted@.to_multiset() == samples@.take(i as int).to_multiset(),
        decreases samples@.len() - i,
    {
        insert_sorted(&mut sorted, samples[i]);
        proof {
            broadcast use group_to_multiset_ensures;

            assert(samples@.take(i + 1) =~= samples@.take(i as int).push(samples@[i as int]));
        }
        i = i + 1;
    }
    proof {
        let leq = |a: u128, b: u128| a <= b;
        assert(samples@.take(i as int) =~= samples@);
        assert(total_ordering(leq));
        samples@.lemma_sort_by_ensures(leq);
        lemma_sorted_unique(sorted@, samples@.sort_by(leq), leq);
    }
    sorted
}

/// The sample at `percent` among sorted samples.
pub fn percentile(sorted_samples: &[u128], percent: i64) -> (sample: u128)
    ensures
        sample == sample_at(sorted_samples@, percent as int),
{
    if sorted_samples.len() == 0 {
        return 0;
    }
    let clamped: u128 = if percent < 0 {
        0
    } else if percent > 100 {
        100
    } else {
        percent as u128
    };
    proof {
        rank_is_the_nearest_place(sorted_samples@.len() as int, percent as int);
        let last = sorted_samples@.len() - 1;
        assert(0 <= last * clamped <= last * 100) by (nonlinear_arith)
            requires
                0 <= clamped <= 100,
                last >= 0,
        ;
    }
    let index: u128 = ((sorted_samples.len() - 1) as u128 * clamped + 50) / 100;
    sorted_samples[index as usize]
}

impl FrameMetrics {
    /// Nothing measured yet.
    pub fn new() -> (metrics: FrameMetrics)
        ensures
            metrics@ == MetricsView::nothing(),
            metrics@.well_formed(),
    {
        let metrics = FrameMetrics {
            samples: Vec::new(),
            max: 0,
            over_16ms: 0,
            over_32ms: 0,
            over_threshold: 0,
        };
        assert(metrics@.samples =~= Seq::<u128>::empty());
        metrics
    }

    /// Forgets what was measured.
    pub fn reset(&mut self)
        ensures
            final(self)@ == MetricsView::nothing(),
            final(self)@.well_formed(),
    {
        self.samples.clear();
        self.max = 0;
        self.over_16ms = 0;
        self.over_32ms = 0;
        self.over_threshold = 0;
        assert(self@.samples =~= Seq::<u128>::empty());
    }

    /// The summary of what was measured.
    fn summary(&self, frame: u64, threshold_ms: u64) -> (summary: FrameSummary)
        ensures
            self@.summed_up(frame, threshold_ms, summary),
    {
        let sorted: Vec<u128> = sort_samples(&self.samples);
        FrameSummary {
            frame,
            samples: self.samples.len() as u64,
            p50: percentile(sorted.as_slice(), 50),
            p95: percentile(sorted.as_slice(), 95),
            p99: percentile(sorted.as_slice(), 99),
            max: self.max,
            over_16ms: self.over_16ms,
            over_32ms: self.over_32ms,
            threshold_ms,
            over_threshold: self.over_threshold,
        }
    }
}

/// Takes in the time of a frame. Where a summary is due, gives it and starts anew.
pub fn record_frame_metrics(
    metrics: &mut FrameMetrics,
    frame: u64,
    elapsed: u128,
    threshold_ms: u64,
) -> (summary: Option<FrameSummary>)
    requires
        old(metrics)@.well_formed(),
    ensures
        final(metrics)@.well_formed(),
        summary is Some <==> summary_is_due(frame),
        summary matches Some(s) ==> old(metrics)@.with(elapsed, threshold_ms).summed_up(
            frame,
            threshold_ms,
            s,
        ) && final(metrics)@ == MetricsView::nothing(),
        summary is None ==> final(metrics)@ == old(metrics)@.with(elapsed, threshold_ms),
        final(metrics)@ == old(metrics)@.after_frame(frame, elapsed, threshold_ms),
{
    proof {
        measuring_keeps_the_counters_right(metrics@, elapsed, threshold_ms);
        lemma_count_bounded(metrics@.samples, MILLIS_16);
        lemma_count_bounded(metrics@.samples, MILLIS_32);
    }
    metrics.samples.push(elapsed);
    assert(metrics.samples.len() == metrics.samples@.len());
    if elapsed > metrics.max {
        metrics.max = elapsed;
    }
    if elapsed > MILLIS_16 {
        metrics.over_16ms = metrics.over_16ms + 1;
    }
    if elapsed > MILLIS_32 {
        metrics.over_32ms = metrics.over_32ms + 1;
    }
    if elapsed > millis_to_nanos(threshold_ms) {
        metrics.over_threshold = metrics.over_threshold + 1;
    }
    if frame > 0 && frame % FRAME_SUMMARY_INTERVAL == 0 {
        let summary = metrics.summary(frame, threshold_ms);
        metrics.reset();
        Some(summary)
    } else {
        None
    }
}

proof fn lemma_none_above_the_largest(samples: Seq<u128>)
    ensures
        forall|i: int| 0 <= i < samples.len() ==> #[trigger] samples[i] <= largest(samples),
    decreases samples.len(),
{
    if samples.len() > 0 {
        lemma_none_above_the_largest(samples.drop_last());
        assert forall|i: int| 0 <= i < samples.len() implies #[trigger] samples[i] <= largest(
            samples,
        ) by {
            if i < samples.len() - 1 {
                assert(samples.drop_last()[i] == samples[i]);
            }
        }
    }
}

/// In every summary the percentiles rise, and none of them is above the longest frame.
pub proof fn summaries_rise(
    metrics: MetricsView,
    frame: u64,
    threshold_ms: u64,
    summary: FrameSummary,
)
    requires
        metrics.well_formed(),
        metrics.samples.len() > 0,
        metrics.summed_up(frame, threshold_ms, summary),
    ensures
        summary.p50 <= summary.p95 <= summary.p99 <= summary.max,
{
    let leq = |a: u128, b: u128| a <= b;
    let sorted = ordered(metrics.samples);
    assert(total_ordering(leq));
    metrics.samples.lemma_sort_by_ensures(leq);
    assert forall|i: int, j: int| 0 <= i <= j < sorted.len() implies sorted[i] <= sorted[j] by {
        if i < j {
            assert(leq(sorted[i], sorted[j]));
        }
    }
    broadcast use group_to_multiset_ensures;

    assert(sorted.len() == sorted.to_multiset().len() == metrics.samples.len());
    percentiles_rise(sorted, 50, 95);
    percentiles_rise(sorted, 95, 99);
    rank_is_the_nearest_place(sorted.len() as int, 99);
    let top = sorted[rank(sorted.len() as int, 99)];
    assert(sorted.contains(top));
    assert(metrics.samples.to_multiset().count(top) > 0);
    assert(metrics.samples.contains(top));
    lemma_none_above_the_largest(metrics.samples);
}

/// What has been measured after frames that took `times`, the first of them the one after
/// frame `frame`.
pub open spec fn measured(
    metrics: MetricsView,
    frame: int,
    times: Seq<u128>,
    threshold_ms: u64,
) -> MetricsView
    decreases times.len(),
{
    if times.len() == 0 {
        metrics
    } else if (frame + times.len()) % FRAME_SUMMARY_INTERVAL as int == 0 {
        MetricsView::nothing()
    } else {
        measured(metrics, frame, times.drop_last(), threshold_ms).with(times.last(), threshold_ms)
    }
}

/// Between two summaries every frame is kept, so that the next summary covers the frames since
/// the last one, all of them and no others.
pub proof fn summaries_cover_the_frames_between(frame: int, times: Seq<u128>, threshold_ms: u64)
    requires
        frame >= 0,
        frame % FRAME_SUMMARY_INTERVAL as int == 0,
        times.len() < FRAME_SUMMARY_INTERVAL,
    ensures
        measured(MetricsView::nothing(), frame, times, threshold_ms).samples == times,
        measured(MetricsView::nothing(), frame, times, threshold_ms).well_formed(),
    decreases times.len(),
{
    let nothing = MetricsView::nothing();
    if times.len() == 0 {
        assert(nothing.samples =~= times);
    } else {
        let before = measured(nothing, frame, times.drop_last(), threshold_ms);
        summaries_cover_the_frames_between(frame, times.drop_last(), threshold_ms);
        measuring_keeps_the_counters_right(before, times.last(), threshold_ms);
        assert(times.drop_last().push(times.last()) =~= times);
    }
}

/// A summary is due at the end of every frame whose number is a positive multiple of 300, and
/// at no frame between two of these.
pub proof fn summaries_come_every_300_frames(k: int, frame: u64)
    requires
        k >= 0,
    ensures
        !summary_is_due(0),
        k > 0 && frame == 300 * k ==> summary_is_due(frame),
        300 * k < frame < 300 * (k + 1) ==> !summary_is_due(frame),
{
}

/// Of any 300 frames in a row exactly one gives a summary.
pub proof fn one_of_300_frames_gives_a_summary(start: u64) -> (due: u64)
    requires
        0 < start <= u64::MAX - 300,
    ensures
        start <= due < start + 300,
        summary_is_due(due),
        forall|frame: u64|
            start <= frame < start + 300 && frame != due ==> !#[trigger] summary_is_due(frame),
{
    (((start + 299) / 300) * 300) as u64
}

/// The metrics after frames that took these times, with these thresholds, the first of them
/// frame 1.
pub open spec fn kept(times: Seq<(u128, u64)>) -> MetricsView
    decreases times.len(),
{
    if times.len() == 0 {
        MetricsView::nothing()
    } else {
        kept(times.drop_last()).after_frame(
            times.len() as u64,
            times.last().0,
            times.last().1,
        )
    }
}

/// After any number of frames, what is kept is the times of those since the last frame whose
/// number is a multiple of 300, in their order, and the counters agree with them.
pub proof fn the_frames_since_the_last_summary_are_kept(times: Seq<(u128, u64)>)
    requires
        times.len() <= u64::MAX,
    ensures
        kept(times).samples == times.skip(times.len() - times.len() % 300).map_values(
            |time: (u128, u64)| time.0,
        ),
        kept(times).samples.len() == times.len() % 300,
        kept(times).over_threshold == how_many_slow(
            times.skip(times.len() - times.len() % 300),
        ),
        kept(times).well_formed(),
    decreases times.len(),
{
    let first = |time: (u128, u64)| time.0;
    let n = times.len();
    let tail = times.skip(n - n % 300);
    if n == 0 {
        assert(kept(times).samples =~= tail.map_values(first));
    } else {
        let rest = times.drop_last();
        the_frames_since_the_last_summary_are_kept(rest);
        let m = rest.len();
        let before = rest.skip(m - m % 300);
        if n % 300 == 0 {
            assert(kept(times).samples =~= tail.map_values(first));
        } else {
            assert(m % 300 == n % 300 - 1);
            assert(tail =~= before.push(times.last()));
            assert(tail.drop_last() =~= before);
            assert(kept(times).samples =~= tail.map_values(first));
            measuring_keeps_the_counters_right(kept(rest), times.last().0, times.last().1);
        }
    }
}

/// How many of these frames took longer than their thresholds in milliseconds.
pub open spec fn how_many_slow(times: Seq<(u128, u64)>) -> int
    decreases times.len(),
{
    if times.len() == 0 {
        0
    } else {
        how_many_slow(times.drop_last()) + one_if(times.last().0 > times.last().1 * 1_000_000)
    }
}

/// A frame adds its time as the last of the samples, and counts as over 16 ms, over 32 ms and
/// over the threshold where it is.
pub proof fn a_frame_is_added(metrics: MetricsView, elapsed: u128, threshold_ms: u64)
    ensures
        metrics.with(elapsed, threshold_ms).samples == metrics.samples.push(elapsed),
        metrics.with(elapsed, threshold_ms).over_16ms - metrics.over_16ms == (if elapsed
            > 16_000_000 {
            1int
        } else {
            0
        }),
        metrics.with(elapsed, threshold_ms).over_32ms - metrics.over_32ms == (if elapsed
            > 32_000_000 {
            1int
        } else {
            0
        }),
        metrics.with(elapsed, threshold_ms).over_threshold - metrics.over_threshold == (if elapsed
            > threshold_ms * 1_000_000 {
            1int
        } else {
            0
        }),
        metrics.with(elapsed, threshold_ms).max >= elapsed,
        metrics.with(elapsed, threshold_ms).max >= metrics.max,
        metrics.with(elapsed, threshold_ms).max == elapsed || metrics.with(
            elapsed,
            threshold_ms,
        ).max == metrics.max,
        MetricsView::nothing().samples.len() == 0,
        MetricsView::nothing().max == 0,
        MetricsView::nothing().over_16ms == 0,
        MetricsView::nothing().over_32ms == 0,
        MetricsView::nothing().over_threshold == 0,
{
}

/// How many of the samples are as `wanted` says.
pub open spec fn how_many(samples: Seq<u128>, wanted: spec_fn(u128) -> bool) -> int
    decreases samples.len(),
{
    if samples.len() == 0 {
        0
    } else {
        how_many(samples.drop_last(), wanted) + (if wanted(samples.last()) {
            1int
        } else {
            0
        })
    }
}

proof fn lemma_count_is_how_many(samples: Seq<u128>, bound: u128)
    ensures
        count_over(samples, bound) == how_many(samples, |time: u128| time > bound),
    decreases samples.len(),
{
    if samples.len() > 0 {
        lemma_count_is_how_many(samples.drop_last(), bound);
    }
}

proof fn lemma_how_many_without_one(samples: Seq<u128>, wanted: spec_fn(u128) -> bool, i: int)
    requires
        0 <= i < samples.len(),
    ensures
        how_many(samples, wanted) == how_many(samples.remove(i), wanted) + (if wanted(samples[i]) {
            1int
        } else {
            0
        }),
    decreases samples.len(),
{
    if i == samples.len() - 1 {
        assert(samples.remove(i) =~= samples.drop_last());
    } else {
        lemma_how_many_without_one(samples.drop_last(), wanted, i);
        assert(samples.remove(i).drop_last() =~= samples.drop_last().remove(i));
        assert(samples.remove(i).last() == samples.last());
    }
}

proof fn lemma_how_many_in_any_order(
    samples: Seq<u128>,
    others: Seq<u128>,
    wanted: spec_fn(u128) -> bool,
)
    requires
        samples.to_multiset() == others.to_multiset(),
    ensures
        how_many(samples, wanted) == how_many(others, wanted),
    decreases samples.len(),
{
    broadcast use group_to_multiset_ensures;

    assert(samples.len() == samples.to_multiset().len() == others.len());
    if samples.len() > 0 {
        let last = samples.last();
        assert(samples[samples.len() - 1] == last);
        assert(samples.contains(last));
        assert(samples.to_multiset().count(last) > 0);
        assert(others.contains(last));
        let i = choose|i: int| 0 <= i < others.len() && others[i] == last;
        assert(samples.remove(samples.len() - 1) =~= samples.drop_last());
        assert(samples.drop_last().to_multiset() == others.remove(i).to_multiset());
        lemma_how_many_in_any_order(samples.drop_last(), others.remove(i), wanted);
        lemma_how_many_without_one(others, wanted, i);
    }
}

proof fn lemma_how_many_bounds(samples: Seq<u128>, wanted: spec_fn(u128) -> bool, k: int)
    requires
        0 <= k <= samples.len(),
    ensures
        (forall|i: int| 0 <= i < k ==> wanted(#[trigger] samples[i])) ==> how_many(samples, wanted)
            >= k,
        (forall|i: int| k <= i < samples.len() ==> !wanted(#[trigger] samples[i])) ==> how_many(
            samples,
            wanted,
        ) <= k,
    decreases samples.len(),
{
    if samples.len() > 0 {
        let rest = samples.drop_last();
        if k < samples.len() {
            lemma_how_many_bounds(rest, wanted, k);
            if forall|i: int| 0 <= i < k ==> wanted(#[trigger] samples[i]) {
                assert forall|i: int| 0 <= i < k implies wanted(#[trigger] rest[i]) by {
                    assert(wanted(samples[i]));
                }
            }
            if forall|i: int| k <= i < samples.len() ==> !wanted(#[trigger] samples[i]) {
                assert forall|i: int| k <= i < rest.len() implies !wanted(#[trigger] rest[i]) by {
                    assert(!wanted(samples[i]));
                }
                assert(!wanted(samples[samples.len() - 1]));
            }
        } else {
            lemma_how_many_bounds(rest, wanted, k - 1);
            if forall|i: int| 0 <= i < k ==> wanted(#[trigger] samples[i]) {
                assert forall|i: int| 0 <= i < k - 1 implies wanted(#[trigger] rest[i]) by {
                    assert(wanted(samples[i]));
                }
                assert(wanted(samples[k - 1]));
            }
        }
    }
}

/// Whether `time` stands `percent` of the way up among the samples: it is one of them, the
/// samples below it do not reach over the place that is nearest to there, counted from 0, and
/// those not above it do. From the middle between two places the upper one counts.
pub open spec fn stands_at(samples: Seq<u128>, percent: int, time: u128) -> bool {
    let way = (samples.len() - 1) * percent;
    &&& samples.contains(time)
    &&& 100 * how_many(samples, |other: u128| other < time) <= way + 50
    &&& 100 * (how_many(samples, |other: u128| other <= time) - 1) > way - 50
}

/// The rank is the nearest place, the upper one from the middle between two; below 0 and above
/// 100 percent it is the first and the last place.
pub proof fn ranks_are_rounded(len: int, percent: int)
    requires
        len > 0,
    ensures
        0 <= percent <= 100 ==> -50 < 100 * rank(len, percent) - (len - 1) * percent <= 50,
        percent <= 0 ==> rank(len, percent) == 0,
        percent >= 100 ==> rank(len, percent) == len - 1,
        0 <= rank(len, percent) < len,
{
    rank_is_the_nearest_place(len, percent);
    assert((len - 1) * 0 == 0) by (nonlinear_arith);
    assert((len - 1) * 100 == 100 * (len - 1)) by (nonlinear_arith);
}

/// Putting samples in order loses and adds none, and none is followed by a shorter one.
pub proof fn ordered_samples_rise(samples: Seq<u128>)
    ensures
        ordered(samples).to_multiset() == samples.to_multiset(),
        ordered(samples).len() == samples.len(),
        forall|i: int, j: int|
            0 <= i <= j < samples.len() ==> #[trigger] ordered(samples)[i]
                <= #[trigger] ordered(samples)[j],
{
    let leq = |a: u128, b: u128| a <= b;
    let sorted = ordered(samples);
    assert(total_ordering(leq));
    samples.lemma_sort_by_ensures(leq);
    broadcast use group_to_multiset_ensures;

    assert(sorted.len() == sorted.to_multiset().len() == samples.len());
    assert forall|i: int, j: int| 0 <= i <= j < samples.len() implies #[trigger] sorted[i]
        <= #[trigger] sorted[j] by {
        if i < j {
            assert(leq(sorted[i], sorted[j]));
        }
    }
}

/// The sample that is found at a percentage stands there among the samples, whatever order they
/// came in; of no samples it is 0.
pub proof fn percentiles_stand_where_they_should(samples: Seq<u128>, percent: int)
    requires
        0 <= percent <= 100,
    ensures
        samples.len() > 0 ==> stands_at(samples, percent, sample_at(ordered(samples), percent)),
        samples.len() == 0 ==> sample_at(samples, percent) == 0,
{
    if samples.len() > 0 {
        let sorted = ordered(samples);
        let r = rank(samples.len() as int, percent);
        ranks_are_rounded(samples.len() as int, percent);
        ordered_samples_rise(samples);
        let time = sorted[r];
        let below = |other: u128| other < time;
        let up_to = |other: u128| other <= time;
        lemma_how_many_in_any_order(samples, sorted, below);
        lemma_how_many_in_any_order(samples, sorted, up_to);
        assert forall|i: int| r <= i < sorted.len() implies !below(#[trigger] sorted[i]) by {
            assert(sorted[r] <= sorted[i]);
        }
        lemma_how_many_bounds(sorted, below, r);
        assert forall|i: int| 0 <= i < r + 1 implies up_to(#[trigger] sorted[i]) by {
            assert(sorted[i] <= sorted[r]);
        }
        lemma_how_many_bounds(sorted, up_to, r + 1);
        broadcast use group_to_multiset_ensures;

        assert(sorted.contains(time));
        assert(samples.to_multiset().count(time) > 0);
    }
}

/// The counters of metrics that are in order say how many samples are over 16 ms and over 32 ms,
/// and their maximum is the longest sample.
pub proof fn counters_count_the_samples(metrics: MetricsView)
    requires
        metrics.well_formed(),
    ensures
        metrics.over_16ms == how_many(metrics.samples, |time: u128| time > 16_000_000),
        metrics.over_32ms == how_many(metrics.samples, |time: u128| time > 32_000_000),
        forall|i: int|
            0 <= i < metrics.samples.len() ==> #[trigger] metrics.samples[i] <= metrics.max,
        metrics.samples.len() > 0 ==> metrics.samples.contains(metrics.max),
        metrics.samples.len() == 0 ==> metrics.max == 0,
{
    lemma_count_is_how_many(metrics.samples, MILLIS_16);
    lemma_count_is_how_many(metrics.samples, MILLIS_32);
    lemma_none_above_the_largest(metrics.samples);
    lemma_the_largest_is_one(metrics.samples);
}

proof fn lemma_the_largest_is_one(samples: Seq<u128>)
    ensures
        samples.len() > 0 ==> samples.contains(largest(samples)),
    decreases samples.len(),
{
    if samples.len() > 0 {
        let rest = samples.drop_last();
        lemma_the_largest_is_one(rest);
        assert(samples[samples.len() - 1] == samples.last());
        if rest.len() > 0 && largest(samples) == largest(rest) {
            let i = choose|i: int| 0 <= i < rest.len() && rest[i] == largest(rest);
            assert(samples[i] == largest(samples));
        } else {
            assert(samples[samples.len() - 1] == largest(samples)) by {
                if samples.last() <= largest(rest) {
                    assert(rest.len() == 0);
                    assert(largest(rest) == 0);
                }
            }
        }
    }
}

/// A summary is about the frames that were measured before and the one that has just ended. It
/// gives their number, the times that stand half, 95 % and 99 % of the way up among them, the
/// longest time, and how many were over 16 ms, over 32 ms and over the threshold.
pub proof fn summaries_say_what_was_measured(
    before: MetricsView,
    frame: u64,
    elapsed: u128,
    threshold_ms: u64,
    summary: FrameSummary,
)
    requires
        before.well_formed(),
        before.with(elapsed, threshold_ms).summed_up(frame, threshold_ms, summary),
    ensures
        summary.frame == frame,
        summary.threshold_ms == threshold_ms,
        summary.samples == before.samples.len() + 1,
        stands_at(before.samples.push(elapsed), 50, summary.p50),
        stands_at(before.samples.push(elapsed), 95, summary.p95),
        stands_at(before.samples.push(elapsed), 99, summary.p99),
        before.samples.push(elapsed).contains(summary.max),
        forall|i: int|
            0 <= i < before.samples.len() ==> #[trigger] before.samples[i] <= summary.max,
        elapsed <= summary.max,
        summary.over_16ms == how_many(
            before.samples.push(elapsed),
            |time: u128| time > 16_000_000,
        ),
        summary.over_32ms == how_many(
            before.samples.push(elapsed),
            |time: u128| time > 32_000_000,
        ),
        summary.over_threshold == before.over_threshold + (if elapsed > threshold_ms * 1_000_000 {
            1int
        } else {
            0
        }),
{
    let all = before.samples.push(elapsed);
    let metrics = before.with(elapsed, threshold_ms);
    measuring_keeps_the_counters_right(before, elapsed, threshold_ms);
    counters_count_the_samples(metrics);
    percentiles_stand_where_they_should(all, 50);
    percentiles_stand_where_they_should(all, 95);
    percentiles_stand_where_they_should(all, 99);
    assert forall|i: int| 0 <= i < before.samples.len() implies #[trigger] before.samples[i]
        <= summary.max by {
        assert(all[i] == before.samples[i]);
    }
    assert(all[before.samples.len() as int] == elapsed);
}

} // verus!
