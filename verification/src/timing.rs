//! Per-period statistics of window processing times.
use vstd::prelude::*;

verus! {

/// Count, total, minimum and maximum of the processing times (in
/// microseconds) pushed since the last reset.  The empty state has
/// `min_us == u64::MAX` and `max_us == 0`, so the first push sets both.
pub struct TimingStats {
    pub count: u64,
    pub total_us: u64,
    pub min_us: u64,
    pub max_us: u64,
}

/// The statistics of no samples at all.
pub open spec fn timing_empty() -> TimingStats {
    TimingStats { count: 0, total_us: 0, min_us: u64::MAX, max_us: 0 }
}

/// Smaller of two values.
pub open spec fn min_u64(a: u64, b: u64) -> u64 {
    if a < b { a } else { b }
}

/// Larger of two values.
pub open spec fn max_u64(a: u64, b: u64) -> u64 {
    if a > b { a } else { b }
}

/// Sum of a sequence of times.
pub open spec fn seq_sum(s: Seq<u64>) -> int
    decreases s.len(),
{
    if s.len() == 0 { 0 } else { seq_sum(s.drop_last()) + s.last() }
}

impl TimingStats {
    /// One more sample fits without overflowing `count` or `total_us`.
    pub open spec fn can_push(self, elapsed_us: u64) -> bool {
        &&& self.count < u64::MAX
        &&& self.total_us + elapsed_us <= u64::MAX
    }

    /// The statistics after one more sample `elapsed_us`.
    pub open spec fn pushed(self, elapsed_us: u64) -> TimingStats {
        TimingStats {
            count: (self.count + 1) as u64,
            total_us: (self.total_us + elapsed_us) as u64,
            min_us: min_u64(self.min_us, elapsed_us),
            max_us: max_u64(self.max_us, elapsed_us),
        }
    }

    /// The average that the health report prints: the total divided
    /// by the count, with an empty period counted as one sample.
    pub open spec fn spec_avg(self) -> u64 {
        if self.count == 0 { self.total_us } else { self.total_us / self.count }
    }

    /// Empty statistics.
    pub fn new() -> (s: TimingStats)
        ensures
            s == timing_empty(),
    {
        TimingStats { count: 0, total_us: 0, min_us: u64::MAX, max_us: 0 }
    }

    /// Adds one processing time.
    pub fn push(&mut self, elapsed_us: u64)
        requires
            old(self).can_push(elapsed_us),
        ensures
            *final(self) == old(self).pushed(elapsed_us),
    {
        self.count += 1;
        self.total_us += elapsed_us;
        if elapsed_us < self.min_us {
            self.min_us = elapsed_us;
        }
        if elapsed_us > self.max_us {
            self.max_us = elapsed_us;
        }
    }

    /// Integer average of the pushed times (0 when nothing was pushed).
    pub fn avg_us(&self) -> (avg: u64)
        ensures
            avg == self.spec_avg(),
            self.count > 0 ==> avg == self.total_us / self.count,
            self.count == 0 ==> avg == self.total_us,
    {
        let divisor: u64 = if self.count == 0 { 1 } else { self.count };
        self.total_us / divisor
    }

    /// Forgets every pushed time.
    pub fn reset(&mut self)
        ensures
            *final(self) == timing_empty(),
    {
        self.count = 0;
        self.total_us = 0;
        self.min_us = u64::MAX;
        self.max_us = 0;
    }
}

/// The statistics obtained by pushing the times of `s`, in order, into
/// empty statistics.
pub open spec fn timing_of(s: Seq<u64>) -> TimingStats
    decreases s.len(),
{
    if s.len() == 0 {
        timing_empty()
    } else {
        timing_of(s.drop_last()).pushed(s.last())
    }
}

/// Pushing the times of `s` one by one into empty statistics counts them,
/// sums them, and keeps their minimum and maximum: every time lies between
/// `min_us` and `max_us`, both bounds are times of `s`, and the reported
/// average lies between them too.
pub proof fn lemma_timing_summarizes(s: Seq<u64>)
    requires
        s.len() <= u64::MAX,
        seq_sum(s) <= u64::MAX,
    ensures
        timing_of(s).count == s.len(),
        timing_of(s).total_us == seq_sum(s),
        forall|i: int| 0 <= i < s.len() ==> timing_of(s).min_us <= #[trigger] s[i],
        forall|i: int| 0 <= i < s.len() ==> s[i] <= timing_of(s).max_us,
        s.len() > 0 ==> exists|i: int| 0 <= i < s.len() && s[i] == timing_of(s).min_us,
        s.len() > 0 ==> exists|i: int| 0 <= i < s.len() && s[i] == timing_of(s).max_us,
        s.len() > 0 ==> timing_of(s).min_us <= timing_of(s).spec_avg() <= timing_of(s).max_us,
    decreases s.len(),
{
    if s.len() > 0 {
        let p = s.drop_last();
        lemma_seq_sum_nonneg(p);
        lemma_timing_summarizes(p);
        let t = timing_of(p);
        let e = s.last();
        assert forall|i: int| 0 <= i < s.len() implies timing_of(s).min_us <= #[trigger] s[i]
            && s[i] <= timing_of(s).max_us by {
            if i < s.len() - 1 {
                assert(s[i] == p[i]);
            }
        }
        if p.len() == 0 {
            assert(s[0] == e);
        } else {
            let imin = choose|i: int| 0 <= i < p.len() && p[i] == t.min_us;
            let imax = choose|i: int| 0 <= i < p.len() && p[i] == t.max_us;
            assert(s[imin] == p[imin]);
            assert(s[imax] == p[imax]);
            assert(s[s.len() - 1] == e);
        }
        lemma_sum_bounds(s);
        let n = timing_of(s).count as int;
        let total = timing_of(s).total_us as int;
        let lo = timing_of(s).min_us as int;
        let hi = timing_of(s).max_us as int;
        assert(n * lo <= total && total <= n * hi);
        assert(lo <= total / n <= hi) by (nonlinear_arith)
            requires
                n > 0,
                n * lo <= total,
                total <= n * hi,
        ;
    }
}

/// The reported average of a non-empty run of pushed times is the floor
/// of their arithmetic mean: their sum divided by their number.
pub proof fn lemma_timing_average_is_mean(s: Seq<u64>)
    requires
        s.len() > 0,
        s.len() <= u64::MAX,
        seq_sum(s) <= u64::MAX,
    ensures
        timing_of(s).spec_avg() == seq_sum(s) / (s.len() as int),
        timing_of(s).spec_avg() * s.len() <= seq_sum(s) < (timing_of(s).spec_avg() + 1) * s.len(),
{
    lemma_timing_summarizes(s);
    let n = s.len() as int;
    let total = seq_sum(s);
    let a = total / n;
    assert(a * n <= total < (a + 1) * n) by (nonlinear_arith)
        requires
            n > 0,
            total >= 0,
            a == total / n,
    ;
}

/// A sum of times is never negative.
pub proof fn lemma_seq_sum_nonneg(s: Seq<u64>)
    ensures
        seq_sum(s) >= 0,
    decreases s.len(),
{
    if s.len() > 0 {
        lemma_seq_sum_nonneg(s.drop_last());
    }
}

/// The sum lies between `len * min` and `len * max` of the summarized times.
proof fn lemma_sum_bounds(s: Seq<u64>)
    requires
        s.len() <= u64::MAX,
        seq_sum(s) <= u64::MAX,
        forall|i: int| 0 <= i < s.len() ==> timing_of(s).min_us <= #[trigger] s[i],
        forall|i: int| 0 <= i < s.len() ==> s[i] <= timing_of(s).max_us,
    ensures
        s.len() * timing_of(s).min_us <= seq_sum(s) <= s.len() * timing_of(s).max_us,
{
    lemma_sum_between(s, timing_of(s).min_us as int, timing_of(s).max_us as int);
}

/// If every element lies in `[lo, hi]`, the sum lies in `[len*lo, len*hi]`.
proof fn lemma_sum_between(s: Seq<u64>, lo: int, hi: int)
    requires
        forall|i: int| 0 <= i < s.len() ==> lo <= #[trigger] s[i] <= hi,
    ensures
        s.len() * lo <= seq_sum(s) <= s.len() * hi,
    decreases s.len(),
{
    if s.len() > 0 {
        let p = s.drop_last();
        assert forall|i: int| 0 <= i < p.len() implies lo <= #[trigger] p[i] <= hi by {
            assert(p[i] == s[i]);
        }
        lemma_sum_between(p, lo, hi);
        assert(s.last() == s[s.len() - 1]);
        assert(s.len() * lo == p.len() * lo + lo) by (nonlinear_arith)
            requires s.len() == p.len() + 1;
        assert(s.len() * hi == p.len() * hi + hi) by (nonlinear_arith)
            requires s.len() == p.len() + 1;
    }
}

} // verus!
