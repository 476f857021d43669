//! A bounded sliding window of frame times, summarised periodically as
//! minimum / maximum / mean.
use std::collections::VecDeque;
use std::time::Instant;
use vstd::prelude::*;

verus! {

#[verifier::external_type_specification]
#[verifier::external_body]
pub struct ExInstant(Instant);

/// `Instant::now()`: a reading of the monotonic clock. Nothing is claimed of it.
#[verifier::external_body]
fn clock_now() -> Instant {
    Instant::now()
}

/// `Instant::elapsed()` taken in whole nanoseconds (`Duration::as_nanos`).
/// It depends on the clock, so nothing is claimed of the value.
#[verifier::external_body]
fn nanos_since(start: &Instant) -> u128 {
    start.elapsed().as_nanos()
}

/// The window never holds fewer slots than this.
pub const MIN_WINDOW: usize = 8;

pub const NANOS_PER_SEC: u64 = 1_000_000_000;

/// The minimum reported for a window in which no frame is shorter: 9999 s.
pub const MIN_START_NANOS: u128 = 9_999_000_000_000;

/// `max(x, lo)`.
pub open spec fn at_least(x: int, lo: int) -> int {
    if x < lo {
        lo
    } else {
        x
    }
}

/// The window after one more frame: the oldest frame leaves once the window is full.
pub open spec fn window_push(s: Seq<u128>, d: u128, cap: int) -> Seq<u128> {
    if s.len() >= cap {
        s.drop_first().push(d)
    } else {
        s.push(d)
    }
}

/// The newest `cap` frames of a window.
pub open spec fn keep_newest(s: Seq<u128>, cap: int) -> Seq<u128> {
    if s.len() > cap {
        s.subrange(s.len() - cap, s.len() as int)
    } else {
        s
    }
}

/// The smallest frame time, or 9999 s when none is smaller.
pub open spec fn window_min(s: Seq<u128>) -> u128
    decreases s.len(),
{
    if s.len() == 0 {
        MIN_START_NANOS
    } else {
        let m = window_min(s.drop_last());
        if s.last() < m {
            s.last()
        } else {
            m
        }
    }
}

/// The largest frame time, or 0 for an empty window.
pub open spec fn window_max(s: Seq<u128>) -> u128
    decreases s.len(),
{
    if s.len() == 0 {
        0
    } else {
        let m = window_max(s.drop_last());
        if s.last() > m {
            s.last()
        } else {
            m
        }
    }
}

/// The total of the frame times, in nanoseconds.
pub open spec fn window_sum(s: Seq<u128>) -> int
    decreases s.len(),
{
    if s.len() == 0 {
        0
    } else {
        window_sum(s.drop_last()) + s.last()
    }
}

/// The sample count as the 32-bit divisor the mean is taken with.
pub open spec fn divisor(s: Seq<u128>) -> int {
    (s.len() % 4294967296) as int
}

/// The mean frame time, rounded down to a whole nanosecond; 0 when the divisor is 0.
pub open spec fn window_avg(s: Seq<u128>) -> int {
    if divisor(s) > 0 {
        window_sum(s) / divisor(s)
    } else {
        0
    }
}

/// The total of the frame times stays within what a `Duration` holds
/// (`u64::MAX` whole seconds and a fraction); adding past it panics.
pub open spec fn sum_fits(s: Seq<u128>) -> bool {
    window_sum(s) < 18446744073709551616 * 1_000_000_000
}

/// A prefix of a window totals no more than the window.
proof fn lemma_prefix_sum_bounded(s: Seq<u128>, k: int)
    requires
        0 <= k <= s.len(),
    ensures
        window_sum(s.take(k)) <= window_sum(s),
    decreases s.len() - k,
{
    if k < s.len() {
        lemma_prefix_sum_bounded(s, k + 1);
        assert(s.take(k + 1).drop_last() =~= s.take(k));
    } else {
        assert(s.take(k) =~= s);
    }
}

#[verifier::spinoff_prover]
proof fn lemma_window_bounds(s: Seq<u128>)
    requires
        s.len() > 0,
    ensures
        forall|i: int| 0 <= i < s.len() ==> window_min(s) <= #[trigger] s[i] <= window_max(s),
        exists|i: int| 0 <= i < s.len() && s[i] == window_max(s),
        window_min(s) == MIN_START_NANOS || exists|i: int| 0 <= i < s.len() && s[i] == window_min(s),
        s.len() * window_min(s) <= window_sum(s) <= s.len() * window_max(s),
    decreases s.len(),
{
    let t = s.drop_last();
    if t.len() == 0 {
        assert(s[0] == s.last());
    } else {
        lemma_window_bounds(t);
        assert forall|i: int| 0 <= i < s.len() implies window_min(s) <= #[trigger] s[i] <= window_max(s) by {
            if i < t.len() {
                assert(s[i] == t[i]);
            }
        }
        if window_max(s) != s.last() {
            let k = choose|k: int| 0 <= k < t.len() && t[k] == window_max(t);
            assert(s[k] == t[k]);
        } else {
            assert(s[s.len() - 1] == window_max(s));
        }
        if window_min(s) != MIN_START_NANOS && window_min(s) != s.last() {
            let k = choose|k: int| 0 <= k < t.len() && t[k] == window_min(t);
            assert(s[k] == t[k]);
        } else if window_min(s) == s.last() {
            assert(s[s.len() - 1] == window_min(s));
        }
        let a = window_min(s) as int;
        let b = window_max(s) as int;
        assert(t.len() * a <= t.len() * window_min(t)) by (nonlinear_arith)
            requires
                a <= window_min(t),
                t.len() >= 0,
        ;
        assert(t.len() * window_max(t) <= t.len() * b) by (nonlinear_arith)
            requires
                window_max(t) <= b,
                t.len() >= 0,
        ;
        assert(s.len() * a == t.len() * a + a) by (nonlinear_arith)
            requires
                s.len() == t.len() + 1,
        ;
        assert(s.len() * b == t.len() * b + b) by (nonlinear_arith)
            requires
                s.len() == t.len() + 1,
        ;
        assert(window_sum(s) == window_sum(t) + s.last());
        assert(a <= s.last() <= b);
    }
}

/// Of a window of at least one and at most `u32::MAX` frames, the mean lies
/// between the reported minimum and maximum; the maximum is a frame of the
/// window, and so is the minimum unless every frame is longer than 9999 s.
pub proof fn law_stats_within_window(s: Seq<u128>)
    requires
        0 < s.len() <= 4294967295,
    ensures
        stats_of(s).min_nanos <= stats_of(s).avg_nanos <= stats_of(s).max_nanos,
        s.contains(stats_of(s).max_nanos),
        s.contains(stats_of(s).min_nanos) || forall|i: int| 0 <= i < s.len() ==> #[trigger] s[i] > MIN_START_NANOS,
{
    lemma_window_bounds(s);
    let n = s.len() as int;
    assert(divisor(s) == n);
    let lo = window_min(s) as int;
    let hi = window_max(s) as int;
    let total = window_sum(s);
    assert(lo <= total / n <= hi) by (nonlinear_arith)
        requires
            n > 0,
            n * lo <= total <= n * hi,
    ;
    if !s.contains(window_min(s)) {
        assert forall|i: int| 0 <= i < s.len() implies #[trigger] s[i] > MIN_START_NANOS by {
            assert(window_min(s) <= s[i]);
            if s[i] == MIN_START_NANOS {
                assert(s.contains(window_min(s)));
            }
        }
    }
}

/// Recording into a window of `cap` frames keeps the newest `cap` of the
/// frames seen: the old window with the new frame appended, cut to its last `cap`.
pub proof fn law_record_keeps_newest(s: Seq<u128>, d: u128, cap: int)
    requires
        1 <= cap,
        s.len() <= cap,
    ensures
        window_push(s, d, cap) == keep_newest(s.push(d), cap),
        window_push(s, d, cap).len() <= cap,
        window_push(s, d, cap).last() == d,
{
    if s.len() >= cap {
        assert(s.drop_first().push(d) =~= s.push(d).subrange(s.push(d).len() - cap, s.push(d).len() as int));
    }
}

/// The window after recording the frames `ds`, in order, into the window `s`
/// of `cap` slots.
pub open spec fn record_run(s: Seq<u128>, ds: Seq<u128>, cap: int) -> Seq<u128>
    decreases ds.len(),
{
    if ds.len() == 0 {
        s
    } else {
        window_push(record_run(s, ds.drop_last(), cap), ds.last(), cap)
    }
}

/// Recording a run of frames into a window of `cap` slots that holds at most
/// `cap` frames leaves the newest `cap` of all the frames, oldest first: from
/// the empty window of a new monitor, the newest `min(n, cap)` of the `n`
/// frames recorded.
pub proof fn law_run_keeps_newest(s: Seq<u128>, ds: Seq<u128>, cap: int)
    requires
        1 <= cap,
        s.len() <= cap,
    ensures
        record_run(s, ds, cap) == keep_newest(s + ds, cap),
        record_run(s, ds, cap).len() <= cap,
    decreases ds.len(),
{
    if ds.len() > 0 {
        let d = ds.last();
        law_run_keeps_newest(s, ds.drop_last(), cap);
        let all = s + ds.drop_last();
        let prev = keep_newest(all, cap);
        law_record_keeps_newest(prev, d, cap);
        assert(s + ds =~= all.push(d));
        assert(keep_newest(prev.push(d), cap) =~= keep_newest(all.push(d), cap));
    }
}

/// Minimum, maximum and mean of a window of frame times, in nanoseconds.
#[derive(Debug, Clone, Copy, PartialEq, Eq, Structural)]
pub struct PerfStats {
    pub min_nanos: u128,
    pub max_nanos: u128,
    pub avg_nanos: u128,
    pub samples: usize,
}

pub open spec fn stats_of(s: Seq<u128>) -> PerfStats {
    PerfStats {
        min_nanos: window_min(s),
        max_nanos: window_max(s),
        avg_nanos: window_avg(s) as u128,
        samples: s.len() as usize,
    }
}

pub struct PerfMonitor {
    frame_times: VecDeque<u128>,
    max_samples: usize,
    last_log: Instant,
    log_interval_secs: u64,
    enabled: bool,
}

impl PerfMonitor {
    /// The frame times in the window, oldest first, in nanoseconds.
    pub closed spec fn samples(&self) -> Seq<u128> {
        self.frame_times@
    }

    /// How many frame times the window keeps.
    pub closed spec fn capacity(&self) -> int {
        self.max_samples as int
    }

    /// Seconds between two summaries.
    pub closed spec fn interval_secs(&self) -> int {
        self.log_interval_secs as int
    }

    pub closed spec fn is_enabled(&self) -> bool {
        self.enabled
    }

    /// When the last summary was taken (or the monitor configured).
    pub closed spec fn last_log_at(&self) -> Instant {
        self.last_log
    }

    /// At least eight slots, an interval of at least one second, and no more
    /// frames than slots.
    pub closed spec fn wf(&self) -> bool {
        &&& self.max_samples >= MIN_WINDOW
        &&& self.log_interval_secs >= 1
        &&& self.frame_times@.len() <= self.max_samples
    }

    /// What well-formedness gives a caller: at least eight slots, an interval
    /// of at least one second, and no more frames than slots.
    pub proof fn lemma_wf(&self)
        requires
            self.wf(),
        ensures
            self.capacity() >= 8,
            self.interval_secs() >= 1,
            self.samples().len() <= self.capacity(),
    {
    }

    /// An empty monitor with at least eight slots and an interval of at least one second.
    pub fn new(max_samples: usize, log_interval_secs: u64, enabled: bool) -> (r: Self)
        ensures
            r.wf(),
            r.samples() == Seq::<u128>::empty(),
            r.capacity() == at_least(max_samples as int, 8),
            r.interval_secs() == at_least(log_interval_secs as int, 1),
            r.is_enabled() == enabled,
    {
        let cap = if max_samples < MIN_WINDOW {
            MIN_WINDOW
        } else {
            max_samples
        };
        let secs = if log_interval_secs < 1 {
            1
        } else {
            log_interval_secs
        };
        PerfMonitor {
            frame_times: VecDeque::with_capacity(cap),
            max_samples: cap,
            last_log: clock_now(),
            log_interval_secs: secs,
            enabled,
        }
    }

    /// New limits and switch; the oldest frames leave until the window fits,
    /// and the interval starts again.
    pub fn reconfigure(&mut self, max_samples: usize, log_interval_secs: u64, enabled: bool)
        requires
            old(self).wf(),
        ensures
            final(self).wf(),
            final(self).capacity() == at_least(max_samples as int, 8),
            final(self).interval_secs() == at_least(log_interval_secs as int, 1),
            final(self).is_enabled() == enabled,
            final(self).samples() == keep_newest(old(self).samples(), final(self).capacity()),
    {
        let cap = if max_samples < MIN_WINDOW {
            MIN_WINDOW
        } else {
            max_samples
        };
        let secs = if log_interval_secs < 1 {
            1
        } else {
            log_interval_secs
        };
        self.max_samples = cap;
        self.log_interval_secs = secs;
        self.enabled = enabled;
        self.last_log = clock_now();
        let ghost start = self.frame_times@;
        while self.frame_times.len() > self.max_samples
            invariant
                self.max_samples == cap,
                cap >= MIN_WINDOW,
                self.log_interval_secs == secs,
                secs == at_least(log_interval_secs as int, 1),
                self.enabled == enabled,
                start.len() <= cap ==> self.frame_times@.len() == start.len(),
                start.len() >= self.frame_times@.len(),
                start.len() > cap ==> self.frame_times@.len() >= cap,
                self.frame_times@ == start.subrange(start.len() - self.frame_times@.len(), start.len() as int),
            decreases self.frame_times@.len(),
        {
            self.frame_times.pop_front();
        }
        proof {
            if start.len() <= cap {
                assert(self.frame_times@ =~= start);
            }
        }
    }

    /// Adds one frame time (a `Duration`, in nanoseconds) when the monitor is
    /// on; a full window first drops its oldest frame.
    pub fn record(&mut self, frame_nanos: u128)
        requires
            old(self).wf(),
        ensures
            final(self).wf(),
            final(self).capacity() == old(self).capacity(),
            final(self).interval_secs() == old(self).interval_secs(),
            final(self).is_enabled() == old(self).is_enabled(),
            final(self).last_log_at() == old(self).last_log_at(),
            final(self).samples() == if old(self).is_enabled() {
                window_push(old(self).samples(), frame_nanos, old(self).capacity())
            } else {
                old(self).samples()
            },
    {
        if !self.enabled {
            return;
        }
        if self.frame_times.len() >= self.max_samples {
            self.frame_times.pop_front();
        }
        self.frame_times.push_back(frame_nanos);
    }

    /// Minimum, maximum and mean of the window.
    pub fn stats(&self) -> (r: PerfStats)
        requires
            sum_fits(self.samples()),
        ensures
            r == stats_of(self.samples()),
    {
        let ghost s = self.frame_times@;
        let len = self.frame_times.len();
        let mut min: u128 = MIN_START_NANOS;
        let mut max: u128 = 0;
        let mut sum: u128 = 0;
        let mut i: usize = 0;
        while i < len
            invariant
                s == self.frame_times@,
                len == s.len(),
                0 <= i <= len,
                sum_fits(s),
                min == window_min(s.take(i as int)),
                max == window_max(s.take(i as int)),
                sum == window_sum(s.take(i as int)),
            decreases len - i,
        {
            let d = self.frame_times[i];
            assert(s.take(i + 1).drop_last() =~= s.take(i as int));
            proof {
                lemma_prefix_sum_bounded(s, i + 1);
            }
            if d < min {
                min = d;
            }
            if d > max {
                max = d;
            }
            sum = sum + d;
            i = i + 1;
        }
        assert(s.take(len as int) =~= s);
        let n: u64 = if len <= 4294967295 {
            len as u64
        } else {
            (len as u64) % 4294967296
        };
        let avg: u128 = if n > 0 {
            sum / (n as u128)
        } else {
            0
        };
        PerfStats { min_nanos: min, max_nanos: max, avg_nanos: avg, samples: len }
    }

    /// The summary due once `elapsed_nanos` have passed since the last one:
    /// none while the monitor is off, the window empty or the interval not
    /// yet over; otherwise the window's stats, and `now` becomes the time of
    /// the last summary.
    pub fn maybe_log_at(&mut self, elapsed_nanos: u128, now: Instant) -> (r: Option<PerfStats>)
        requires
            old(self).wf(),
            sum_fits(old(self).samples()),
        ensures
            final(self).wf(),
            final(self).samples() == old(self).samples(),
            final(self).capacity() == old(self).capacity(),
            final(self).interval_secs() == old(self).interval_secs(),
            final(self).is_enabled() == old(self).is_enabled(),
            (r is Some) == (old(self).is_enabled() && old(self).samples().len() > 0
                && elapsed_nanos >= old(self).interval_secs() * NANOS_PER_SEC),
            r is Some ==> r == Some(stats_of(old(self).samples())) && final(self).last_log_at() == now,
            r is None ==> final(self).last_log_at() == old(self).last_log_at(),
    {
        if !self.enabled || self.frame_times.len() == 0 {
            return None;
        }
        let interval: u128 = (self.log_interval_secs as u128) * (NANOS_PER_SEC as u128);
        if elapsed_nanos < interval {
            return None;
        }
        self.last_log = now;
        Some(self.stats())
    }

    /// The periodic summary: reads the clock and hands the time since the
    /// last summary to `maybe_log_at`.
    pub fn maybe_log(&mut self) -> (r: Option<PerfStats>)
        requires
            old(self).wf(),
            sum_fits(old(self).samples()),
        ensures
            final(self).wf(),
            final(self).samples() == old(self).samples(),
            final(self).capacity() == old(self).capacity(),
            final(self).interval_secs() == old(self).interval_secs(),
            final(self).is_enabled() == old(self).is_enabled(),
            !(old(self).is_enabled() && old(self).samples().len() > 0) ==> r is None,
            r is Some ==> r == Some(stats_of(old(self).samples())),
            r is None ==> final(self).last_log_at() == old(self).last_log_at(),
    {
        if !self.enabled || self.frame_times.len() == 0 {
            return None;
        }
        let elapsed = nanos_since(&self.last_log);
        let now = clock_now();
        self.maybe_log_at(elapsed, now)
    }
}

} // verus!
