//! Running descriptive statistics over a stream of latency samples.
//!
//! The aggregator keeps O(1) state — count, last value, minimum, maximum,
//! sum and sum of squares — and never stores the stream itself.  All state
//! is held in exact integer arithmetic, so every derived statistic (mean,
//! Bessel-corrected sample variance, squared standard error) is reported as
//! an exact rational number with no rounding at any point.  A sample is a
//! latency in whole milliseconds.

use vstd::prelude::*;

verus! {

/// Largest accepted sample value, in milliseconds (about 49 days).
pub const MAX_SAMPLE_MS: u64 = 0xFFFF_FFFF;

/// Largest number of samples the aggregator accepts.
pub const MAX_SAMPLE_COUNT: u64 = 0x1_0000_0000;

/// Sum of the elements of a sample stream.
pub open spec fn sum_of(s: Seq<u64>) -> int
    decreases s.len(),
{
    if s.len() == 0 {
        0
    } else {
        sum_of(s.drop_last()) + s.last()
    }
}

/// Sum of the squared elements of a sample stream.
pub open spec fn sum_sq_of(s: Seq<u64>) -> int
    decreases s.len(),
{
    if s.len() == 0 {
        0
    } else {
        sum_sq_of(s.drop_last()) + s.last() * s.last()
    }
}

/// Least element of a sample stream (0 for an empty stream).
pub open spec fn min_of(s: Seq<u64>) -> int
    decreases s.len(),
{
    if s.len() == 0 {
        0
    } else if s.len() == 1 {
        s[0] as int
    } else {
        let m = min_of(s.drop_last());
        if s.last() < m {
            s.last() as int
        } else {
            m
        }
    }
}

/// Greatest element of a sample stream (0 for an empty stream).
pub open spec fn max_of(s: Seq<u64>) -> int
    decreases s.len(),
{
    if s.len() == 0 {
        0
    } else if s.len() == 1 {
        s[0] as int
    } else {
        let m = max_of(s.drop_last());
        if s.last() > m {
            s.last() as int
        } else {
            m
        }
    }
}

/// Numerator of the Bessel-corrected sample variance of a stream:
/// `n * sum of squares - (sum)^2`, to be divided by `n * (n - 1)`.
pub open spec fn variance_num_of(s: Seq<u64>) -> int {
    s.len() * sum_sq_of(s) - sum_of(s) * sum_of(s)
}

/// An exact non-negative rational number, as numerator over denominator.
#[derive(PartialEq, Eq, Structural, Clone, Copy, Debug)]
pub struct Ratio {
    pub num: u128,
    pub den: u128,
}

/// Online aggregator for last / min / max / mean / sample variance /
/// squared standard error over an unbounded stream of latency samples,
/// in O(1) memory and exact integer arithmetic.
pub struct StatsAggregator {
    count: u64,
    last: u64,
    min: u64,
    max: u64,
    sum: u64,
    sum_sq: u128,
    hist: Ghost<Seq<u64>>,
}

impl StatsAggregator {
    /// The stream of samples fed so far (ghost; never stored at run time).
    pub closed spec fn samples(self) -> Seq<u64> {
        self.hist@
    }

    /// Internal consistency: the O(1) fields agree with the sample stream.
    pub closed spec fn wf(self) -> bool {
        &&& self.count == self.hist@.len()
        &&& self.count <= MAX_SAMPLE_COUNT
        &&& forall|i: int| 0 <= i < self.hist@.len() ==> self.hist@[i] <= MAX_SAMPLE_MS
        &&& self.sum == sum_of(self.hist@)
        &&& self.sum_sq == sum_sq_of(self.hist@)
        &&& self.hist@.len() > 0 ==> self.last == self.hist@.last()
        &&& self.hist@.len() > 0 ==> self.min == min_of(self.hist@)
        &&& self.hist@.len() > 0 ==> self.max == max_of(self.hist@)
    }

    /// A fresh aggregator that has seen no samples.
    pub fn new() -> (r: StatsAggregator)
        ensures
            r.wf(),
            r.samples() == Seq::<u64>::empty(),
    {
        StatsAggregator {
            count: 0,
            last: 0,
            min: 0,
            max: 0,
            sum: 0,
            sum_sq: 0,
            hist: Ghost(Seq::empty()),
        }
    }

    /// Feed one sample.  The sample is accepted exactly when it is at most
    /// `MAX_SAMPLE_MS` and the aggregator is not full; a rejected sample
    /// leaves the aggregator unchanged.
    pub fn try_sample(&mut self, v: u64) -> (ok: bool)
        requires
            old(self).wf(),
        ensures
            final(self).wf(),
            ok == (old(self).samples().len() < MAX_SAMPLE_COUNT && v <= MAX_SAMPLE_MS),
            ok ==> final(self).samples() == old(self).samples().push(v),
            !ok ==> *final(self) == *old(self),
    {
        if self.count < MAX_SAMPLE_COUNT && v <= MAX_SAMPLE_MS {
            proof {
                let s0 = self.hist@;
                assert(s0.push(v).drop_last() =~= s0);
                lemma_sum_bound(s0, MAX_SAMPLE_MS as int);
                lemma_sum_sq_bound(s0, MAX_SAMPLE_MS as int);
                assert(sum_of(s0) + v <= u64::MAX) by (nonlinear_arith)
                    requires
                        0 <= sum_of(s0) <= s0.len() * (0xFFFF_FFFF as int),
                        s0.len() < 0x1_0000_0000,
                        0 <= v <= 0xFFFF_FFFF,
                ;
                assert((v as int) * (v as int) <= 0xFFFF_FFFF * 0xFFFF_FFFF) by (nonlinear_arith)
                    requires
                        0 <= v <= 0xFFFF_FFFF,
                ;
                assert(sum_sq_of(s0) + (v as int) * (v as int) <= u128::MAX) by (nonlinear_arith)
                    requires
                        0 <= sum_sq_of(s0) <= s0.len() * ((0xFFFF_FFFF as int) * (
                        0xFFFF_FFFF as int)),
                        s0.len() < 0x1_0000_0000,
                        0 <= v <= 0xFFFF_FFFF,
                ;
            }
            if self.count == 0 {
                self.min = v;
                self.max = v;
            } else {
                if v < self.min {
                    self.min = v;
                }
                if v > self.max {
                    self.max = v;
                }
            }
            self.last = v;
            self.sum = self.sum + v;
            self.sum_sq = self.sum_sq + (v as u128) * (v as u128);
            self.count = self.count + 1;
            self.hist = Ghost(self.hist@.push(v));
            true
        } else {
            false
        }
    }

    /// How many samples have been fed.
    pub fn count(&self) -> (n: u64)
        requires
            self.wf(),
        ensures
            n == self.samples().len(),
    {
        self.count
    }

    /// The most recent sample, or `None` before the first sample.
    pub fn last(&self) -> (r: Option<u64>)
        requires
            self.wf(),
        ensures
            self.samples().len() == 0 ==> r is None,
            self.samples().len() > 0 ==> r == Some(self.samples().last()),
    {
        if self.count == 0 {
            None
        } else {
            Some(self.last)
        }
    }

    /// The least sample so far, or `None` before the first sample.
    pub fn min(&self) -> (r: Option<u64>)
        requires
            self.wf(),
        ensures
            self.samples().len() == 0 ==> r is None,
            self.samples().len() > 0 ==> (r is Some && r->0 == min_of(self.samples())),
    {
        if self.count == 0 {
            None
        } else {
            Some(self.min)
        }
    }

    /// The greatest sample so far, or `None` before the first sample.
    pub fn max(&self) -> (r: Option<u64>)
        requires
            self.wf(),
        ensures
            self.samples().len() == 0 ==> r is None,
            self.samples().len() > 0 ==> (r is Some && r->0 == max_of(self.samples())),
    {
        if self.count == 0 {
            None
        } else {
            Some(self.max)
        }
    }

    /// The mean of all samples as an exact rational, or `None` before the
    /// first sample.
    pub fn mean(&self) -> (r: Option<Ratio>)
        requires
            self.wf(),
        ensures
            self.samples().len() == 0 ==> r is None,
            self.samples().len() > 0 ==> r == Some(
                Ratio { num: sum_of(self.samples()) as u128, den: self.samples().len() as u128 },
            ),
    {
        if self.count == 0 {
            None
        } else {
            Some(Ratio { num: self.sum as u128, den: self.count as u128 })
        }
    }

    /// The Bessel-corrected sample variance as an exact rational:
    /// `(n * sum of squares - sum^2) / (n * (n - 1))`.  With fewer than two
    /// samples the variance is undefined; the reported sentinel is the
    /// exact zero `0 / 1`.
    pub fn sample_variance(&self) -> (r: Ratio)
        requires
            self.wf(),
        ensures
            self.samples().len() < 2 ==> r == (Ratio { num: 0, den: 1 }),
            self.samples().len() >= 2 ==> {
                &&& r.num == variance_num_of(self.samples())
                &&& r.den == self.samples().len() * (self.samples().len() - 1)
            },
    {
        if self.count < 2 {
            Ratio { num: 0, den: 1 }
        } else {
            proof {
                lemma_variance_fits(self.hist@);
                lemma_cauchy_schwarz(self.hist@);
            }
            let n = self.count as u128;
            let num = n * self.sum_sq - (self.sum as u128) * (self.sum as u128);
            Ratio { num, den: n * (n - 1) }
        }
    }

    /// The squared standard error of the mean as an exact rational:
    /// the sample variance divided by `n`, that is
    /// `(n * sum of squares - sum^2) / (n^2 * (n - 1))`.  With fewer than
    /// two samples the sentinel is the exact zero `0 / 1`.
    pub fn error_squared(&self) -> (r: Ratio)
        requires
            self.wf(),
        ensures
            self.samples().len() < 2 ==> r == (Ratio { num: 0, den: 1 }),
            self.samples().len() >= 2 ==> {
                &&& r.num == variance_num_of(self.samples())
                &&& r.den == self.samples().len() * self.samples().len() * (self.samples().len()
                    - 1)
            },
    {
        if self.count < 2 {
            Ratio { num: 0, den: 1 }
        } else {
            proof {
                lemma_variance_fits(self.hist@);
                lemma_cauchy_schwarz(self.hist@);
            }
            let n = self.count as u128;
            let num = n * self.sum_sq - (self.sum as u128) * (self.sum as u128);
            Ratio { num, den: n * n * (n - 1) }
        }
    }
}

/// Every sample stream with elements bounded by `b` has sum at most
/// `len * b`.
pub proof fn lemma_sum_bound(s: Seq<u64>, b: int)
    requires
        0 <= b,
        forall|i: int| 0 <= i < s.len() ==> s[i] <= b,
    ensures
        0 <= sum_of(s) <= s.len() * b,
    decreases s.len(),
{
    if s.len() > 0 {
        lemma_sum_bound(s.drop_last(), b);
        assert((s.len() - 1) * b + b == s.len() * b) by (nonlinear_arith);
    }
}

/// Every sample stream with elements bounded by `b` has sum of squares at
/// most `len * b^2`.
pub proof fn lemma_sum_sq_bound(s: Seq<u64>, b: int)
    requires
        0 <= b,
        forall|i: int| 0 <= i < s.len() ==> s[i] <= b,
    ensures
        0 <= sum_sq_of(s) <= s.len() * (b * b),
    decreases s.len(),
{
    if s.len() > 0 {
        lemma_sum_sq_bound(s.drop_last(), b);
        assert(s.last() * s.last() <= b * b) by (nonlinear_arith)
            requires
                0 <= s.last() <= b,
        ;
        assert((s.len() - 1) * (b * b) + b * b == s.len() * (b * b)) by (nonlinear_arith);
    }
}

/// One step of the Cauchy-Schwarz argument: appending a sample keeps
/// `n * sum of squares >= sum^2`.
proof fn lemma_cs_step(n: int, q: int, t: int, x: int)
    by (nonlinear_arith)
    requires
        n >= 0,
        q >= 0,
        t >= 0,
        x >= 0,
        n * q >= t * t,
    ensures
        (n + 1) * (q + x * x) >= (t + x) * (t + x),
{
}

/// Cauchy-Schwarz: the variance numerator `n * sum of squares - sum^2` is
/// never negative, so the sample variance is a non-negative rational.
pub proof fn lemma_cauchy_schwarz(s: Seq<u64>)
    ensures
        sum_of(s) * sum_of(s) <= s.len() * sum_sq_of(s),
    decreases s.len(),
{
    if s.len() == 0 {
    } else {
        let p = s.drop_last();
        lemma_cauchy_schwarz(p);
        lemma_sum_nonneg(p);
        lemma_sum_sq_nonneg(p);
        lemma_cs_step(p.len() as int, sum_sq_of(p), sum_of(p), s.last() as int);
    }
}

/// The sum of a sample stream is non-negative.
proof fn lemma_sum_nonneg(s: Seq<u64>)
    ensures
        sum_of(s) >= 0,
    decreases s.len(),
{
    if s.len() > 0 {
        lemma_sum_nonneg(s.drop_last());
    }
}

/// The sum of squares of a sample stream is non-negative.
proof fn lemma_sum_sq_nonneg(s: Seq<u64>)
    ensures
        sum_sq_of(s) >= 0,
    decreases s.len(),
{
    if s.len() > 0 {
        lemma_sum_sq_nonneg(s.drop_last());
        let t = s.last() as int;
        assert(t * t >= 0) by (nonlinear_arith);
    }
}

/// For a well-formed aggregator the variance numerator and denominator fit
/// in 128 bits.
proof fn lemma_variance_fits(s: Seq<u64>)
    requires
        s.len() <= MAX_SAMPLE_COUNT,
        forall|i: int| 0 <= i < s.len() ==> s[i] <= MAX_SAMPLE_MS,
    ensures
        s.len() * sum_sq_of(s) <= u128::MAX,
        sum_of(s) * sum_of(s) <= u128::MAX,
        s.len() * (s.len() - 1) <= u128::MAX,
        s.len() * s.len() <= u128::MAX,
        s.len() * s.len() * (s.len() - 1) <= u128::MAX,
{
    lemma_sum_bound(s, MAX_SAMPLE_MS as int);
    lemma_sum_sq_bound(s, MAX_SAMPLE_MS as int);
    lemma_sum_nonneg(s);
    lemma_sum_sq_nonneg(s);
    let n = s.len() as int;
    let b = MAX_SAMPLE_MS as int;
    let c = MAX_SAMPLE_COUNT as int;
    assert(n * sum_sq_of(s) <= u128::MAX && sum_of(s) * sum_of(s) <= u128::MAX && n * (n - 1)
        <= u128::MAX && n * n <= u128::MAX && n * n * (n - 1) <= u128::MAX) by (nonlinear_arith)
        requires
            0 <= n <= c,
            0 <= sum_of(s) <= n * b,
            0 <= sum_sq_of(s) <= n * (b * b),
            b == 0xFFFF_FFFF,
            c == 0x1_0000_0000,
    ;
}

/// Appending a sample moves the running minimum only toward that sample:
/// the new minimum is the smaller of the old minimum and the new sample.
pub proof fn lemma_min_push(s: Seq<u64>, v: u64)
    requires
        s.len() > 0,
    ensures
        min_of(s.push(v)) == if v < min_of(s) {
            v as int
        } else {
            min_of(s)
        },
{
    assert(s.push(v).drop_last() =~= s);
}

/// Appending a sample moves the running maximum only toward that sample:
/// the new maximum is the larger of the old maximum and the new sample.
pub proof fn lemma_max_push(s: Seq<u64>, v: u64)
    requires
        s.len() > 0,
    ensures
        max_of(s.push(v)) == if v > max_of(s) {
            v as int
        } else {
            max_of(s)
        },
{
    assert(s.push(v).drop_last() =~= s);
}

} // verus!
