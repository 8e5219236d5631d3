//! How evenly frames are shown.
//!
//! Times are in nanoseconds.

use vstd::multiset::*;
use vstd::prelude::*;
use vstd::relations::*;
use vstd::seq_lib::*;

verus! {

/// Counts frames between two reports.
#[derive(Clone, Copy, Debug, PartialEq, Eq, Structural)]
pub struct FpsCounter {
    pub frames: u32,
}

impl FpsCounter {
    /// A counter at zero.
    pub fn new() -> (c: FpsCounter)
        ensures
            c.frames == 0,
    {
        FpsCounter { frames: 0 }
    }

    /// Counts a frame. Once a whole second has passed since the last report,
    /// the number of frames is reported and counting starts again.
    pub fn tick(&mut self, elapsed_secs: u64) -> (report: Option<u32>)
        requires
            old(self).frames < u32::MAX,
        ensures
            (report, final(self).frames) == counted(old(self).frames, elapsed_secs),
            elapsed_secs >= 1 ==> report == Some((old(self).frames + 1) as u32) && final(self).frames == 0,
            elapsed_secs < 1 ==> report is None && final(self).frames == old(self).frames + 1,
    {
        self.frames = self.frames + 1;
        if elapsed_secs >= 1 {
            let frames: u32 = self.frames;
            self.frames = 0;
            Some(frames)
        } else {
            None
        }
    }
}

/// A gap between frames beyond which the page was hidden: half a second.
pub const HIDE_GAP: u64 = 500_000_000;

/// Intervals that are collected before they are reported.
pub const REPORT_SAMPLES: usize = 300;

/// The samples in ascending order.
pub open spec fn ascending(samples: Seq<u64>) -> Seq<u64> {
    samples.sort_by(|a: u64, b: u64| a <= b)
}

/// The number of samples above a limit.
pub open spec fn count_above(samples: Seq<u64>, limit: u64) -> int
    decreases samples.len(),
{
    if samples.len() == 0 {
        0
    } else if samples.last() > limit {
        count_above(samples.drop_last(), limit) + 1
    } else {
        count_above(samples.drop_last(), limit)
    }
}

/// The sum of the samples.
pub open spec fn sum_of(samples: Seq<u64>) -> int
    decreases samples.len(),
{
    if samples.len() == 0 {
        0
    } else {
        sum_of(samples.drop_last()) + samples.last()
    }
}

/// The distribution of a run of samples.
#[derive(Clone, Copy, Debug, PartialEq, Eq, Structural)]
pub struct FrameStats {
    pub n: usize,
    /// Sum of the samples; the mean is this over `n`.
    pub sum: u128,
    pub p50: u64,
    pub p95: u64,
    pub p99: u64,
    pub min: u64,
    pub max: u64,
    /// Samples above 30, 50 and 100 milliseconds.
    pub slow_30: usize,
    pub slow_50: usize,
    pub slow_100: usize,
}

/// The sample that `percent` per cent of the samples come before.
pub open spec fn percentile(samples: Seq<u64>, percent: int) -> u64 {
    ascending(samples)[samples.len() * percent / 100]
}

/// `stats` describes `samples`.
pub open spec fn describes(stats: FrameStats, samples: Seq<u64>) -> bool {
    &&& stats.n == samples.len()
    &&& stats.sum == sum_of(samples)
    &&& stats.p50 == percentile(samples, 50)
    &&& stats.p95 == percentile(samples, 95)
    &&& stats.p99 == percentile(samples, 99)
    &&& stats.min == ascending(samples)[0]
    &&& stats.max == ascending(samples)[samples.len() - 1]
    &&& stats.slow_30 == count_above(samples, 30_000_000)
    &&& stats.slow_50 == count_above(samples, 50_000_000)
    &&& stats.slow_100 == count_above(samples, 100_000_000)
}

proof fn lemma_leq_total()
    ensures
        total_ordering(|a: u64, b: u64| a <= b),
{
}

/// What is ascending and holds the same samples is the samples in ascending
/// order.
proof fn lemma_ascending_unique(sorted: Seq<u64>, samples: Seq<u64>)
    requires
        sorted.to_multiset() == samples.to_multiset(),
        forall|i: int, j: int| 0 <= i < j < sorted.len() ==> sorted[i] <= sorted[j],
    ensures
        sorted == ascending(samples),
{
    let leq = |a: u64, b: u64| a <= b;
    lemma_leq_total();
    samples.lemma_sort_by_ensures(leq);
    lemma_sorted_unique(sorted, samples.sort_by(leq), leq);
}

/// Sorting keeps the number of samples and puts them in order.
pub proof fn lemma_ascending(samples: Seq<u64>)
    ensures
        ascending(samples).len() == samples.len(),
        forall|i: int, j: int|
            0 <= i <= j < samples.len() ==> ascending(samples)[i] <= ascending(samples)[j],
        ascending(samples).to_multiset() == samples.to_multiset(),
{
    let leq = |a: u64, b: u64| a <= b;
    lemma_leq_total();
    samples.lemma_sort_by_ensures(leq);
    samples.to_multiset_ensures();
    samples.sort_by(leq).to_multiset_ensures();
    let s = ascending(samples);
    assert forall|i: int, j: int| 0 <= i <= j < samples.len() implies s[i] <= s[j] by {
        if i < j {
            assert(leq(s[i], s[j]));
        }
    }
}

/// The percentiles lie between the least and the greatest sample, in order, and
/// no more samples are above a higher limit than above a lower one.
pub proof fn law_stats_are_ordered(stats: FrameStats, samples: Seq<u64>)
    requires
        0 < samples.len(),
        describes(stats, samples),
    ensures
        stats.min <= stats.p50 <= stats.p95 <= stats.p99 <= stats.max,
        stats.slow_100 <= stats.slow_50 <= stats.slow_30 <= stats.n,
{
    lemma_ascending(samples);
    let n = samples.len() as int;
    assert(0 <= n * 50 / 100 <= n * 95 / 100 <= n * 99 / 100 <= n - 1);
    lemma_count_above(samples, 50_000_000, 100_000_000);
    lemma_count_above(samples, 30_000_000, 50_000_000);
}

proof fn lemma_count_above(samples: Seq<u64>, low: u64, high: u64)
    requires
        low <= high,
    ensures
        0 <= count_above(samples, high) <= count_above(samples, low) <= samples.len(),
    decreases samples.len(),
{
    if samples.len() > 0 {
        lemma_count_above(samples.drop_last(), low, high);
    }
}

/// The samples in ascending order.
pub fn sort_samples(samples: &Vec<u64>) -> (sorted: Vec<u64>)
    ensures
        sorted@ == ascending(samples@),
{
    let mut sorted: Vec<u64> = Vec::new();
    proof {
        assert(samples@.take(0) =~= sorted@);
    }
    for i in 0..samples.len()
        invariant
            sorted@.len() == i,
            sorted@.to_multiset() == samples@.take(i as int).to_multiset(),
            forall|a: int, b: int| 0 <= a < b < sorted@.len() ==> sorted@[a] <= sorted@[b],
    {
        let v: u64 = samples[i];
        let mut at: usize = sorted.len();
        while at > 0 && sorted[at - 1] > v
            invariant
                at <= sorted@.len() == i,
                forall|a: int| at <= a < sorted@.len() ==> sorted@[a] > v,
            decreases at,
        {
            at = at - 1;
        }
        let ghost before = sorted@;
        sorted.insert(at, v);
        proof {
            to_multiset_insert(before, at as int, v);
            assert(samples@.take(i + 1) =~= samples@.take(i as int).push(v));
            to_multiset_build(samples@.take(i as int), v);
            assert forall|a: int, b: int| 0 <= a < b < sorted@.len() implies sorted@[a]
                <= sorted@[b] by {
                if at > 0 {
                    assert(before[at - 1] <= v);
                }
                if b == at && a < at - 1 {
                    assert(before[a] <= before[at - 1]);
                }
            }
        }
    }
    proof {
        assert(samples@.take(samples@.len() as int) =~= samples@);
        lemma_ascending_unique(sorted@, samples@);
    }
    sorted
}

/// The distribution of a run of samples; `None` for no samples.
pub fn frame_stats(samples: &Vec<u64>) -> (stats: Option<FrameStats>)
    ensures
        stats is None <==> samples@.len() == 0,
        stats is Some ==> describes(stats->0, samples@),
{
    let n: usize = samples.len();
    if n == 0 {
        return None;
    }
    let sorted = sort_samples(samples);
    proof {
        lemma_ascending(samples@);
    }
    let mut sum: u128 = 0;
    let mut slow_30: usize = 0;
    let mut slow_50: usize = 0;
    let mut slow_100: usize = 0;
    for i in 0..n
        invariant
            n == samples@.len(),
            sum == sum_of(samples@.take(i as int)),
            sum <= i * 0xffff_ffff_ffff_ffff,
            slow_30 == count_above(samples@.take(i as int), 30_000_000) <= i,
            slow_50 == count_above(samples@.take(i as int), 50_000_000) <= i,
            slow_100 == count_above(samples@.take(i as int), 100_000_000) <= i,
    {
        let x: u64 = samples[i];
        proof {
            assert(samples@.take(i + 1).drop_last() =~= samples@.take(i as int));
        }
        sum = sum + x as u128;
        if x > 30_000_000 {
            slow_30 = slow_30 + 1;
        }
        if x > 50_000_000 {
            slow_50 = slow_50 + 1;
        }
        if x > 100_000_000 {
            slow_100 = slow_100 + 1;
        }
    }
    proof {
        assert(samples@.take(n as int) =~= samples@);
    }
    let wide: u128 = n as u128;
    let i50: usize = (wide * 50 / 100) as usize;
    let i95: usize = (wide * 95 / 100) as usize;
    let i99: usize = (wide * 99 / 100) as usize;
    Some(
        FrameStats {
            n,
            sum,
            p50: sorted[i50],
            p95: sorted[i95],
            p99: sorted[i99],
            min: sorted[0],
            max: sorted[n - 1],
            slow_30,
            slow_50,
            slow_100,
        },
    )
}

/// Intervals between frames and times spent on frames, since the last report.
#[derive(Debug)]
pub struct FrameTimingDiag {
    pub last_frame_start: Option<u64>,
    pub intervals: Vec<u64>,
    pub render_durations: Vec<u64>,
}

/// The distributions of intervals and of times spent.
#[derive(Clone, Copy, Debug, PartialEq, Eq, Structural)]
pub struct FrameReport {
    pub interval: Option<FrameStats>,
    pub render: Option<FrameStats>,
}

/// Time from one instant to a later one; none where it is no later.
pub open spec fn gap(from: u64, to: u64) -> u64 {
    if to >= from {
        (to - from) as u64
    } else {
        0
    }
}

impl FrameTimingDiag {
    /// No frame seen.
    pub fn new() -> (d: FrameTimingDiag)
        ensures
            d.last_frame_start is None,
            d.intervals@.len() == 0,
            d.render_durations@.len() == 0,
    {
        FrameTimingDiag { last_frame_start: None, intervals: Vec::new(), render_durations: Vec::new() }
    }

    /// Notes the start of a frame. The interval since the frame before is kept
    /// unless it is so long that the page must have been hidden.
    pub fn tick(&mut self, now: u64)
        ensures
            final(self).last_frame_start == Some(now),
            final(self).render_durations@ == old(self).render_durations@,
            final(self).intervals@ == match kept(old(self).last_frame_start, now) {
                Some(interval) => old(self).intervals@.push(interval),
                None => old(self).intervals@,
            },
            final(self).intervals@ == match old(self).last_frame_start {
                Some(prev) => if gap(prev, now) <= HIDE_GAP {
                    old(self).intervals@.push(gap(prev, now))
                } else {
                    old(self).intervals@
                },
                None => old(self).intervals@,
            },
    {
        if let Some(prev) = self.last_frame_start {
            let elapsed: u64 = if now >= prev {
                now - prev
            } else {
                0
            };
            if elapsed <= HIDE_GAP {
                self.intervals.push(elapsed);
            }
        }
        self.last_frame_start = Some(now);
    }

    /// Notes the time spent on a frame.
    pub fn record_render(&mut self, duration: u64)
        ensures
            final(self).render_durations@ == old(self).render_durations@.push(duration),
            final(self).intervals@ == old(self).intervals@,
            final(self).last_frame_start == old(self).last_frame_start,
    {
        self.render_durations.push(duration);
    }

    /// Once enough intervals have been collected, reports on both series and
    /// starts collecting anew.
    pub fn maybe_report(&mut self) -> (report: Option<FrameReport>)
        ensures
            final(self).last_frame_start == old(self).last_frame_start,
            report is Some <==> old(self).intervals@.len() >= REPORT_SAMPLES,
            report is None ==> final(self).intervals@ == old(self).intervals@ && final(self).render_durations@ == old(self).render_durations@,
            report is Some ==> {
                &&& final(self).intervals@.len() == 0
                &&& final(self).render_durations@.len() == 0
                &&& report->0.interval is Some
                &&& describes(report->0.interval->0, old(self).intervals@)
                &&& report->0.render is None <==> old(self).render_durations@.len() == 0
                &&& report->0.render is Some ==> describes(
                    report->0.render->0,
                    old(self).render_durations@,
                )
            },
    {
        if self.intervals.len() < REPORT_SAMPLES {
            return None;
        }
        let interval = frame_stats(&self.intervals);
        let render = frame_stats(&self.render_durations);
        self.intervals = Vec::new();
        self.render_durations = Vec::new();
        Some(FrameReport { interval, render })
    }
}

proof fn lemma_filter_len(s: Seq<u64>, f: spec_fn(u64) -> bool)
    ensures
        s.filter(f).len() == s.to_multiset().filter(f).len(),
    decreases s.len(),
{
    reveal(Seq::filter);
    broadcast use vstd::multiset::group_multiset_axioms;
    broadcast use vstd::seq_lib::group_to_multiset_ensures;

    if s.len() > 0 {
        let rest = s.drop_last();
        lemma_filter_len(rest, f);
        assert(s =~= rest.push(s.last()));
        to_multiset_build(rest, s.last());
        let m = rest.to_multiset();
        if f(s.last()) {
            assert(m.insert(s.last()).filter(f) =~= m.filter(f).insert(s.last()));
        } else {
            assert(m.insert(s.last()).filter(f) =~= m.filter(f));
        }
    } else {
        assert(s.to_multiset().filter(f) =~= Multiset::empty());
    }
}

/// Where only the first `most` items pass, no more do; where the first `least`
/// items pass, no fewer do.
proof fn lemma_filter_bounds(s: Seq<u64>, f: spec_fn(u64) -> bool, least: int, most: int)
    requires
        0 <= least <= s.len(),
        0 <= most,
        forall|i: int| 0 <= i < least ==> f(#[trigger] s[i]),
        forall|i: int| most <= i < s.len() ==> !f(#[trigger] s[i]),
    ensures
        least <= s.filter(f).len() <= most || s.len() < most,
        least <= s.filter(f).len() <= s.len(),
    decreases s.len(),
{
    reveal(Seq::filter);
    if s.len() > 0 {
        let rest = s.drop_last();
        let fewer = if least == s.len() {
            least - 1
        } else {
            least
        };
        lemma_filter_bounds(rest, f, fewer, most);
        assert(s[s.len() - 1] == s.last());
    }
}

/// The value of rank `r` among the samples, counted from zero: at most `r`
/// samples lie below it, and more than `r` do not lie above it.
pub open spec fn has_rank(samples: Seq<u64>, v: u64, r: int) -> bool {
    &&& samples.contains(v)
    &&& samples.filter(|x: u64| x < v).len() <= r
    &&& samples.filter(|x: u64| x <= v).len() > r
}

proof fn lemma_rank(samples: Seq<u64>, r: int)
    requires
        0 <= r < samples.len(),
    ensures
        has_rank(samples, ascending(samples)[r], r),
{
    lemma_ascending(samples);
    let s = ascending(samples);
    let v = s[r];
    let (below, upto) = (|x: u64| x < v, |x: u64| x <= v);
    lemma_filter_len(samples, below);
    lemma_filter_len(s, below);
    lemma_filter_len(samples, upto);
    lemma_filter_len(s, upto);
    assert forall|i: int| r <= i < s.len() implies !below(#[trigger] s[i]) by {
        assert(s[r] <= s[i]);
    }
    lemma_filter_bounds(s, below, 0, r);
    assert forall|i: int| 0 <= i < r + 1 implies upto(#[trigger] s[i]) by {
        assert(s[i] <= s[r]);
    }
    lemma_filter_bounds(s, upto, r + 1, s.len() as int);
    s.to_multiset_ensures();
    samples.to_multiset_ensures();
    assert(s.contains(v));
    assert(s.to_multiset().contains(v));
    assert(samples.to_multiset().contains(v));
}

proof fn lemma_slow(samples: Seq<u64>, limit: u64)
    ensures
        count_above(samples, limit) == samples.filter(|x: u64| x > limit).len(),
    decreases samples.len(),
{
    reveal(Seq::filter);
    if samples.len() > 0 {
        lemma_slow(samples.drop_last(), limit);
    }
}

proof fn lemma_sum_bounds(samples: Seq<u64>, low: u64, high: u64)
    requires
        forall|i: int| 0 <= i < samples.len() ==> low <= #[trigger] samples[i] <= high,
    ensures
        low * samples.len() <= sum_of(samples) <= high * samples.len(),
    decreases samples.len(),
{
    if samples.len() > 0 {
        let rest = samples.drop_last();
        assert forall|i: int| 0 <= i < rest.len() implies low <= #[trigger] rest[i] <= high by {
            assert(rest[i] == samples[i]);
        }
        lemma_sum_bounds(rest, low, high);
        let n = rest.len();
        assert(samples[samples.len() - 1] == samples.last());
        assert(low * (n + 1) == low * n + low && high * (n + 1) == high * n + high)
            by (nonlinear_arith);
    } else {
        assert(low * 0 == 0 && high * 0 == 0) by (nonlinear_arith);
    }
}

/// What a report says of its samples: how many there are; a least and a
/// greatest one; the samples of ranks one half, 95 and 99 hundredths; a sum
/// between as many times the least and the greatest; and how many samples took
/// more than 30, 50 and 100 milliseconds.
pub proof fn law_report_values(stats: FrameStats, samples: Seq<u64>)
    requires
        0 < samples.len(),
        describes(stats, samples),
    ensures
        stats.n == samples.len(),
        samples.contains(stats.min),
        samples.contains(stats.max),
        forall|i: int|
            0 <= i < samples.len() ==> stats.min <= #[trigger] samples[i] <= stats.max,
        has_rank(samples, stats.p50, samples.len() as int * 50 / 100),
        has_rank(samples, stats.p95, samples.len() as int * 95 / 100),
        has_rank(samples, stats.p99, samples.len() as int * 99 / 100),
        stats.min * samples.len() <= stats.sum <= stats.max * samples.len(),
        stats.slow_30 == samples.filter(|x: u64| x > 30_000_000).len(),
        stats.slow_50 == samples.filter(|x: u64| x > 50_000_000).len(),
        stats.slow_100 == samples.filter(|x: u64| x > 100_000_000).len(),
{
    let n = samples.len() as int;
    lemma_rank(samples, 0);
    lemma_rank(samples, n - 1);
    lemma_rank(samples, n * 50 / 100);
    lemma_rank(samples, n * 95 / 100);
    lemma_rank(samples, n * 99 / 100);
    lemma_slow(samples, 30_000_000);
    lemma_slow(samples, 50_000_000);
    lemma_slow(samples, 100_000_000);
    lemma_ascending(samples);
    let s = ascending(samples);
    s.to_multiset_ensures();
    samples.to_multiset_ensures();
    assert forall|i: int| 0 <= i < samples.len() implies stats.min <= #[trigger] samples[i]
        <= stats.max by {
        assert(samples.contains(samples[i]));
        assert(s.to_multiset().contains(samples[i]));
        assert(s.contains(samples[i]));
        let j = choose|j: int| 0 <= j < s.len() && s[j] == samples[i];
        assert(s[0] <= s[j] && s[j] <= s[n - 1]);
    }
    lemma_sum_bounds(samples, stats.min, stats.max);
}

/// One more sample adds itself to the sum.
pub proof fn law_sum_adds(samples: Seq<u64>, x: u64)
    ensures
        sum_of(samples.push(x)) == sum_of(samples) + x,
        sum_of(Seq::<u64>::empty()) == 0,
{
    assert(samples.push(x).drop_last() =~= samples);
}

/// Time passes forwards: from one instant to a later one it is their
/// difference, and a page counts as hidden after half a second. A report comes
/// after three hundred intervals.
pub proof fn law_gap(from: u64, to: u64)
    ensures
        from <= to ==> from + gap(from, to) == to,
        to < from ==> gap(from, to) == 0,
        HIDE_GAP == 500_000_000,
        REPORT_SAMPLES == 300,
{
}

/// The interval that a frame adds, where it adds one.
pub open spec fn kept(last: Option<u64>, now: u64) -> Option<u64> {
    match last {
        Some(prev) => if gap(prev, now) <= 500_000_000 {
            Some(gap(prev, now))
        } else {
            None
        },
        None => None,
    }
}

/// A frame adds the time since the frame before, unless there was none or the
/// page was hidden for more than half a second in between.
pub proof fn law_kept_intervals(prev: u64, now: u64)
    requires
        prev <= now,
    ensures
        kept(None, now) is None,
        now - prev <= 500_000_000 ==> kept(Some(prev), now) == Some((now - prev) as u64),
        now - prev > 500_000_000 ==> kept(Some(prev), now) is None,
{
}

/// What a frame counter reports, and where it stands afterwards.
pub open spec fn counted(frames: u32, elapsed_secs: u64) -> (Option<u32>, u32) {
    if elapsed_secs >= 1 {
        (Some((frames + 1) as u32), 0)
    } else {
        (None, (frames + 1) as u32)
    }
}

/// A frame counter counts every frame once: what it reports and what it keeps
/// are together one more than before, and it reports after a whole second.
pub proof fn law_counted(frames: u32, elapsed_secs: u64)
    requires
        frames < u32::MAX,
    ensures
        ({
            let (report, left) = counted(frames, elapsed_secs);
            &&& report is Some <==> elapsed_secs >= 1
            &&& report is Some ==> report->0 == frames + 1 && left == 0
            &&& report is None ==> left == frames + 1
        }),
{
}

} // verus!
