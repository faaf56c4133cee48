//! Per-host and aggregate probe statistics.
//!
//! Round-trip times are whole microseconds. Derived figures (loss, average,
//! percentiles, standard deviation, jitter) are exact integer results,
//! rounded down where a quotient is not whole.

use vstd::arithmetic::div_mod::{lemma_div_is_ordered, lemma_fundamental_div_mod};
use vstd::prelude::*;
use vstd::relations::{sorted_by, total_ordering};
use vstd::seq_lib::{lemma_seq_union_to_multiset_commutative, lemma_sorted_unique, to_multiset_len};

verus! {

broadcast use vstd::seq_lib::group_to_multiset_ensures;

/// Largest round-trip time that a sample can hold, in microseconds.
pub const MAX_SAMPLE: u32 = 0xFFFF_FFFF;

/// Loss figures are given in millionths of a percent.
pub const LOSS_SCALE: u64 = 100_000_000;

/// Percentile ranks are given in thousandths (500 is the median).
pub const PERMILLE: u32 = 1000;

/// Sum of the samples.
pub open spec fn seq_sum(s: Seq<u32>) -> nat
    decreases s.len(),
{
    if s.len() == 0 {
        0
    } else {
        seq_sum(s.drop_last()) + s.last() as nat
    }
}

/// Sum of the squares of the samples.
pub open spec fn seq_sum_sq(s: Seq<u32>) -> nat
    decreases s.len(),
{
    if s.len() == 0 {
        0
    } else {
        seq_sum_sq(s.drop_last()) + (s.last() as nat) * (s.last() as nat)
    }
}

/// Smallest sample; `MAX_SAMPLE` for none.
pub open spec fn seq_min(s: Seq<u32>) -> nat
    decreases s.len(),
{
    if s.len() == 0 {
        MAX_SAMPLE as nat
    } else {
        min_nat(seq_min(s.drop_last()), s.last() as nat)
    }
}

/// Largest sample; 0 for none.
pub open spec fn seq_max(s: Seq<u32>) -> nat
    decreases s.len(),
{
    if s.len() == 0 {
        0
    } else {
        max_nat(seq_max(s.drop_last()), s.last() as nat)
    }
}

pub open spec fn min_nat(a: nat, b: nat) -> nat {
    if a <= b {
        a
    } else {
        b
    }
}

pub open spec fn max_nat(a: nat, b: nat) -> nat {
    if a >= b {
        a
    } else {
        b
    }
}

pub open spec fn abs_diff(a: u32, b: u32) -> nat {
    if a >= b {
        (a - b) as nat
    } else {
        (b - a) as nat
    }
}

/// The order in which percentiles are read.
pub open spec fn sample_leq() -> spec_fn(u32, u32) -> bool {
    |a: u32, b: u32| a <= b
}

/// The samples in ascending order.
pub open spec fn sorted_samples(s: Seq<u32>) -> Seq<u32> {
    s.sort_by(sample_leq())
}

/// Nearest rank of the `p`-thousandths percentile among `n` samples:
/// `p * (n - 1) / 1000` rounded to the nearest integer, halves up.
pub open spec fn nearest_rank(p: nat, n: nat) -> nat {
    (2 * p * (n - 1) + 1000) as nat / 2000
}

/// The `p`-thousandths nearest-rank percentile of `s`; 0 for no samples.
pub open spec fn percentile_of(s: Seq<u32>, p: nat) -> nat {
    if s.len() == 0 {
        0
    } else {
        sorted_samples(s)[nearest_rank(p, s.len()) as int] as nat
    }
}

/// `n * n` times the population variance of `s` (`n` samples).
pub open spec fn spread(s: Seq<u32>) -> int {
    s.len() * seq_sum_sq(s) - seq_sum(s) * seq_sum(s)
}

/// `r` is the population standard deviation of `s`, rounded down.
pub open spec fn is_std_deviation(s: Seq<u32>, r: nat) -> bool {
    (r * s.len()) * (r * s.len()) <= spread(s) < ((r + 1) * s.len()) * ((r + 1) * s.len())
}

/// The population standard deviation of `s`, rounded down; 0 for fewer than two samples.
pub open spec fn std_deviation_of(s: Seq<u32>) -> nat {
    if s.len() < 2 {
        0
    } else {
        choose|r: nat| is_std_deviation(s, r)
    }
}

/// At most one value is the rounded-down standard deviation.
pub proof fn lemma_std_deviation_unique(s: Seq<u32>, a: nat, b: nat)
    requires
        s.len() >= 1,
        is_std_deviation(s, a),
        is_std_deviation(s, b),
    ensures
        a == b,
{
    lemma_square_order(a, b, s.len());
    lemma_square_order(b, a, s.len());
}

proof fn lemma_square_order(x: nat, y: nat, n: nat)
    requires
        (x * n) * (x * n) < ((y + 1) * n) * ((y + 1) * n),
    ensures
        x <= y,
{
    if x > y {
        assert((y + 1) * n <= x * n) by (nonlinear_arith)
            requires
                x >= y + 1,
        ;
        assert(((y + 1) * n) * ((y + 1) * n) <= (x * n) * (x * n)) by (nonlinear_arith)
            requires
                (y + 1) * n <= x * n,
        ;
    }
}

/// The accumulator as a mathematical value.
pub ghost struct StatsModel {
    pub sent: nat,
    pub received: nat,
    pub lost: nat,
    pub min: nat,
    pub max: nat,
    pub total: nat,
    pub samples: Seq<u32>,
    pub last: Option<u32>,
    pub jitter_sum: nat,
    pub jitter_count: nat,
}

impl StatsModel {
    /// The accumulator that nothing was recorded in.
    pub open spec fn empty() -> StatsModel {
        StatsModel {
            sent: 0,
            received: 0,
            lost: 0,
            min: MAX_SAMPLE as nat,
            max: 0,
            total: 0,
            samples: Seq::empty(),
            last: None,
            jitter_sum: 0,
            jitter_count: 0,
        }
    }

    /// Counters, extrema and sums agree with the sample list.
    pub open spec fn wf(self) -> bool {
        &&& self.received == self.samples.len()
        &&& self.total == seq_sum(self.samples)
        &&& self.min == seq_min(self.samples)
        &&& self.max == seq_max(self.samples)
        &&& self.jitter_count <= self.received
        &&& self.jitter_sum <= self.jitter_count * MAX_SAMPLE
    }

    /// Every probe sent has been answered or counted lost.
    pub open spec fn balanced(self) -> bool {
        self.sent == self.received + self.lost
    }

    pub open spec fn with_sent(self) -> StatsModel {
        StatsModel { sent: self.sent + 1, ..self }
    }

    pub open spec fn with_lost(self) -> StatsModel {
        StatsModel { lost: self.lost + 1, ..self }
    }

    /// One reply of `t` microseconds recorded: the jitter gains the distance
    /// to the previous reply, if there was one.
    pub open spec fn with_sample(self, t: u32) -> StatsModel {
        StatsModel {
            received: self.received + 1,
            total: self.total + t as nat,
            min: min_nat(self.min, t as nat),
            max: max_nat(self.max, t as nat),
            samples: self.samples.push(t),
            last: Some(t),
            jitter_sum: match self.last {
                Some(p) => self.jitter_sum + abs_diff(t, p),
                None => self.jitter_sum,
            },
            jitter_count: match self.last {
                Some(p) => self.jitter_count + 1,
                None => self.jitter_count,
            },
            ..self
        }
    }

    /// `self` with `other` folded in: counters and sums added, extrema
    /// reduced, samples appended; the previous reply stays that of `self`.
    pub open spec fn merged(self, other: StatsModel) -> StatsModel {
        StatsModel {
            sent: self.sent + other.sent,
            received: self.received + other.received,
            lost: self.lost + other.lost,
            min: min_nat(self.min, other.min),
            max: max_nat(self.max, other.max),
            total: self.total + other.total,
            samples: self.samples + other.samples,
            last: self.last,
            jitter_sum: self.jitter_sum + other.jitter_sum,
            jitter_count: self.jitter_count + other.jitter_count,
        }
    }

    /// Lost probes in millionths of a percent of those sent, rounded down; 0 when none was sent.
    pub open spec fn loss_percentage(self) -> nat {
        if self.sent == 0 {
            0
        } else {
            self.lost * LOSS_SCALE as nat / self.sent
        }
    }

    /// Mean round trip in microseconds, rounded down; 0 when nothing was received.
    pub open spec fn average_time(self) -> nat {
        if self.received == 0 {
            0
        } else {
            self.total / self.received
        }
    }

    /// Mean distance between consecutive replies, rounded down; 0 for fewer than two pairs.
    pub open spec fn jitter(self) -> nat {
        if self.jitter_count < 2 {
            0
        } else {
            self.jitter_sum / self.jitter_count
        }
    }
}

#[derive(Debug, Clone)]
pub struct PingStatistics {
    pub packets_sent: u32,
    pub packets_received: u32,
    pub packets_lost: u32,
    /// Smallest round trip in microseconds; `MAX_SAMPLE` until a reply arrives.
    pub min_time: u32,
    /// Largest round trip in microseconds; 0 until a reply arrives.
    pub max_time: u32,
    /// Sum of the round trips in microseconds.
    pub total_time: u64,
    /// Round trips in order of arrival.
    pub samples: Vec<u32>,
    /// The previous reply's round trip, for jitter.
    pub last_time: Option<u32>,
    pub jitter_sum: u64,
    pub jitter_count: u32,
}

impl View for PingStatistics {
    type V = StatsModel;

    open spec fn view(&self) -> StatsModel {
        StatsModel {
            sent: self.packets_sent as nat,
            received: self.packets_received as nat,
            lost: self.packets_lost as nat,
            min: self.min_time as nat,
            max: self.max_time as nat,
            total: self.total_time as nat,
            samples: self.samples@,
            last: self.last_time,
            jitter_sum: self.jitter_sum as nat,
            jitter_count: self.jitter_count as nat,
        }
    }
}

proof fn lemma_sum_bounds(s: Seq<u32>)
    ensures
        seq_sum(s) <= s.len() * MAX_SAMPLE,
        seq_sum_sq(s) <= s.len() * (MAX_SAMPLE * MAX_SAMPLE),
        seq_min(s) <= MAX_SAMPLE,
        seq_max(s) <= MAX_SAMPLE,
    decreases s.len(),
{
    if s.len() > 0 {
        lemma_sum_bounds(s.drop_last());
        let x = s.last() as nat;
        assert(x * x <= MAX_SAMPLE * MAX_SAMPLE) by (nonlinear_arith)
            requires
                x <= MAX_SAMPLE,
        ;
        assert(s.len() * (MAX_SAMPLE * MAX_SAMPLE) == (s.len() - 1) * (MAX_SAMPLE * MAX_SAMPLE) + (
        MAX_SAMPLE * MAX_SAMPLE)) by (nonlinear_arith);
    }
}

proof fn lemma_concat(a: Seq<u32>, b: Seq<u32>)
    ensures
        seq_sum(a + b) == seq_sum(a) + seq_sum(b),
        seq_min(a + b) == min_nat(seq_min(a), seq_min(b)),
        seq_max(a + b) == max_nat(seq_max(a), seq_max(b)),
    decreases b.len(),
{
    lemma_sum_bounds(a);
    if b.len() == 0 {
        assert(a + b =~= a);
    } else {
        lemma_concat(a, b.drop_last());
        assert((a + b).drop_last() =~= a + b.drop_last());
    }
}

impl PingStatistics {
    pub open spec fn wf(&self) -> bool {
        self@.wf()
    }

    /// An empty accumulator.
    pub fn new() -> (r: Self)
        ensures
            r.wf(),
            r@ == StatsModel::empty(),
    {
        Self {
            packets_sent: 0,
            packets_received: 0,
            packets_lost: 0,
            min_time: MAX_SAMPLE,
            max_time: 0,
            total_time: 0,
            samples: Vec::new(),
            last_time: None,
            jitter_sum: 0,
            jitter_count: 0,
        }
    }

    pub fn record_sent(&mut self)
        requires
            old(self).wf(),
            old(self).packets_sent < u32::MAX,
        ensures
            final(self).wf(),
            final(self)@ == old(self)@.with_sent(),
    {
        self.packets_sent = self.packets_sent + 1;
    }

    /// Records a reply after `time_us` microseconds.
    pub fn record_received(&mut self, time_us: u32)
        requires
            old(self).wf(),
            old(self).packets_received < u32::MAX,
        ensures
            final(self).wf(),
            final(self)@ == old(self)@.with_sample(time_us),
    {
        proof {
            lemma_sum_bounds(self.samples@);
            assert(self.samples@.push(time_us).drop_last() =~= self.samples@);
        }
        self.packets_received = self.packets_received + 1;
        self.total_time = self.total_time + time_us as u64;
        if time_us < self.min_time {
            self.min_time = time_us;
        }
        if time_us > self.max_time {
            self.max_time = time_us;
        }
        self.samples.push(time_us);
        match self.last_time {
            Some(prev) => {
                let delta: u64 = if time_us >= prev {
                    (time_us - prev) as u64
                } else {
                    (prev - time_us) as u64
                };
                proof {
                    assert(self.jitter_count + 1 <= u32::MAX);
                    assert((self.jitter_count + 1) * MAX_SAMPLE == self.jitter_count * MAX_SAMPLE
                        + MAX_SAMPLE) by (nonlinear_arith);
                    assert((self.jitter_count + 1) * MAX_SAMPLE <= u64::MAX) by (nonlinear_arith)
                        requires
                            self.jitter_count + 1 <= u32::MAX,
                    ;
                }
                self.jitter_sum = self.jitter_sum + delta;
                self.jitter_count = self.jitter_count + 1;
            },
            None => {},
        }
        self.last_time = Some(time_us);
    }

    pub fn record_lost(&mut self)
        requires
            old(self).wf(),
            old(self).packets_lost < u32::MAX,
        ensures
            final(self).wf(),
            final(self)@ == old(self)@.with_lost(),
    {
        self.packets_lost = self.packets_lost + 1;
    }

    /// `100 * lost / sent` in millionths of a percent, rounded down; 0 when nothing was sent.
    pub fn loss_percentage(&self) -> (r: u64)
        ensures
            r == self@.loss_percentage(),
    {
        if self.packets_sent == 0 {
            return 0;
        }
        proof {
            assert(self.packets_lost * LOSS_SCALE <= u32::MAX * LOSS_SCALE) by (nonlinear_arith)
                requires
                    self.packets_lost <= u32::MAX,
            ;
        }
        (self.packets_lost as u64) * LOSS_SCALE / (self.packets_sent as u64)
    }

    /// `total / received` in microseconds, rounded down; 0 when nothing was received.
    pub fn average_time(&self) -> (r: u64)
        ensures
            r == self@.average_time(),
    {
        if self.packets_received == 0 {
            return 0;
        }
        self.total_time / (self.packets_received as u64)
    }

    /// Nearest-rank percentile, `p` in thousandths: the sample at index
    /// `round(p * (n - 1) / 1000)` of the ascending order; 0 for no samples.
    pub fn percentile(&self, p: u32) -> (r: u32)
        requires
            self.wf(),
            p <= PERMILLE,
        ensures
            r == percentile_of(self@.samples, p as nat),
    {
        let n = self.samples.len();
        if n == 0 {
            return 0;
        }
        let v = sort_ascending(&self.samples);
        proof {
            lemma_sorted_is_sort_by(self.samples@, v@);
            lemma_sorted_len(self.samples@);
            assert((2 * p * (n - 1)) as int <= 2 * 1000 * (n - 1)) by (nonlinear_arith)
                requires
                    p <= 1000,
                    n >= 1,
            ;
            assert(2 * (p as int) * ((n - 1) as int) <= 2000 * 0xFFFF_FFFF) by (nonlinear_arith)
                requires
                    p <= 1000,
                    0 <= n - 1 <= 0xFFFF_FFFF,
            ;
            lemma_rank_in_range(p as nat, n as nat);
        }
        let rank = ((2 * (p as u64) * ((n - 1) as u64) + 1000) / 2000) as usize;
        v[rank]
    }

    pub fn p50(&self) -> (r: u32)
        requires
            self.wf(),
        ensures
            r == percentile_of(self@.samples, 500),
    {
        self.percentile(500)
    }

    pub fn p90(&self) -> (r: u32)
        requires
            self.wf(),
        ensures
            r == percentile_of(self@.samples, 900),
    {
        self.percentile(900)
    }

    pub fn p99(&self) -> (r: u32)
        requires
            self.wf(),
        ensures
            r == percentile_of(self@.samples, 990),
    {
        self.percentile(990)
    }

    /// Population standard deviation in microseconds, rounded down; 0 for fewer than two samples.
    pub fn std_deviation(&self) -> (r: u64)
        requires
            self.wf(),
        ensures
            r == std_deviation_of(self@.samples),
            self@.samples.len() >= 2 ==> is_std_deviation(self@.samples, r as nat),
    {
        let n = self.samples.len();
        if n < 2 {
            return 0;
        }
        proof {
            lemma_sum_bounds(self.samples@);
        }
        let mut sq: u128 = 0;
        let mut i: usize = 0;
        while i < n
            invariant
                n == self.samples@.len(),
                n <= u32::MAX,
                i <= n,
                sq == seq_sum_sq(self.samples@.subrange(0, i as int)),
                sq <= i * (MAX_SAMPLE * MAX_SAMPLE),
            decreases n - i,
        {
            let x = self.samples[i] as u128;
            proof {
                assert(self.samples@.subrange(0, i + 1).drop_last() =~= self.samples@.subrange(
                    0,
                    i as int,
                ));
                assert(x * x <= MAX_SAMPLE * MAX_SAMPLE) by (nonlinear_arith)
                    requires
                        x <= MAX_SAMPLE,
                ;
                assert((i + 1) * (MAX_SAMPLE * MAX_SAMPLE) == i * (MAX_SAMPLE * MAX_SAMPLE) + (
                MAX_SAMPLE * MAX_SAMPLE)) by (nonlinear_arith);
                assert((i + 1) * (MAX_SAMPLE * MAX_SAMPLE) <= u32::MAX * (MAX_SAMPLE
                    * MAX_SAMPLE)) by (nonlinear_arith)
                    requires
                        i + 1 <= u32::MAX,
                ;
            }
            sq = sq + x * x;
            i = i + 1;
        }
        let s = self.total_time as u128;
        let nn = n as u128;
        proof {
            assert(self.samples@.subrange(0, n as int) =~= self.samples@);
            lemma_spread_nonneg(self.samples@);
            assert(nn * sq <= u32::MAX * (u32::MAX * (MAX_SAMPLE * MAX_SAMPLE))) by (
            nonlinear_arith)
                requires
                    nn <= u32::MAX,
                    sq <= nn * (MAX_SAMPLE * MAX_SAMPLE),
            ;
            assert(s * s <= nn * sq) by {
                assert(spread(self.samples@) >= 0);
            }
        }
        let d = nn * sq - s * s;
        let root = isqrt(d);
        let r = root / nn;
        proof {
            lemma_floor_root(d as nat, root as nat, nn as nat);
            assert(is_std_deviation(self.samples@, r as nat));
            let c = choose|c: nat| is_std_deviation(self.samples@, c);
            lemma_std_deviation_unique(self.samples@, r as nat, c);
        }
        r as u64
    }

    /// Mean distance between consecutive replies in microseconds, rounded
    /// down; 0 for fewer than two such pairs.
    pub fn jitter(&self) -> (r: u64)
        ensures
            r == self@.jitter(),
    {
        if self.jitter_count < 2 {
            0
        } else {
            self.jitter_sum / (self.jitter_count as u64)
        }
    }

    /// Folds `other` into `self`, so that aggregate figures range over the
    /// union of both sample sets.
    pub fn merge_from(&mut self, other: &PingStatistics)
        requires
            old(self).wf(),
            other.wf(),
            old(self).packets_sent + other.packets_sent <= u32::MAX,
            old(self).packets_received + other.packets_received <= u32::MAX,
            old(self).packets_lost + other.packets_lost <= u32::MAX,
        ensures
            final(self).wf(),
            final(self)@ == old(self)@.merged(other@),
    {
        proof {
            lemma_concat(self.samples@, other.samples@);
            lemma_sum_bounds(self.samples@ + other.samples@);
            let c = self.jitter_count + other.jitter_count;
            assert(self.jitter_count * MAX_SAMPLE + other.jitter_count * MAX_SAMPLE == c
                * MAX_SAMPLE) by (nonlinear_arith)
                requires
                    c == self.jitter_count + other.jitter_count,
            ;
            assert(c * MAX_SAMPLE <= u32::MAX * MAX_SAMPLE) by (nonlinear_arith)
                requires
                    c <= u32::MAX,
            ;
            assert((self.samples@ + other.samples@).len() * MAX_SAMPLE <= u32::MAX * MAX_SAMPLE)
                by (nonlinear_arith)
                requires
                    (self.samples@ + other.samples@).len() <= u32::MAX,
            ;
        }
        self.packets_sent = self.packets_sent + other.packets_sent;
        self.packets_received = self.packets_received + other.packets_received;
        self.packets_lost = self.packets_lost + other.packets_lost;
        if other.min_time < self.min_time {
            self.min_time = other.min_time;
        }
        if other.max_time > self.max_time {
            self.max_time = other.max_time;
        }
        self.total_time = self.total_time + other.total_time;
        append_all(&mut self.samples, &other.samples);
        self.jitter_sum = self.jitter_sum + other.jitter_sum;
        self.jitter_count = self.jitter_count + other.jitter_count;
    }
}

impl Default for PingStatistics {
    fn default() -> (r: Self)
        ensures
            r.wf(),
            r@ == StatsModel::empty(),
    {
        Self::new()
    }
}

/// Appends every element of `src` to `dst`, in order.
fn append_all(dst: &mut Vec<u32>, src: &Vec<u32>)
    ensures
        final(dst)@ == old(dst)@ + src@,
{
    let n = src.len();
    let mut i: usize = 0;
    while i < n
        invariant
            n == src@.len(),
            i <= n,
            dst@ == old(dst)@ + src@.subrange(0, i as int),
        decreases n - i,
    {
        dst.push(src[i]);
        i = i + 1;
        assert(dst@ =~= old(dst)@ + src@.subrange(0, i as int));
    }
    assert(src@.subrange(0, n as int) =~= src@);
}

/// The largest `r` with `r * r <= d`.
fn isqrt(d: u128) -> (r: u128)
    ensures
        r * r <= d < (r + 1) * (r + 1),
        r < 0x1_0000_0000_0000_0000,
{
    let mut lo: u128 = 0;
    let mut hi: u128 = 0x1_0000_0000_0000_0000;
    assert(d < hi * hi);
    while hi - lo > 1
        invariant
            lo < hi <= 0x1_0000_0000_0000_0000,
            lo * lo <= d < hi * hi,
        decreases hi - lo,
    {
        let mid = lo + (hi - lo) / 2;
        assert(mid * mid <= 0xFFFF_FFFF_FFFF_FFFF * 0xFFFF_FFFF_FFFF_FFFF) by (nonlinear_arith)
            requires
                mid <= 0xFFFF_FFFF_FFFF_FFFF,
        ;
        if mid * mid <= d {
            lo = mid;
        } else {
            hi = mid;
        }
    }
    assert(hi == lo + 1);
    lo
}

proof fn lemma_floor_root(d: nat, root: nat, n: nat)
    requires
        n > 0,
        root * root <= d < (root + 1) * (root + 1),
    ensures
        ((root / n) * n) * ((root / n) * n) <= d < ((root / n + 1) * n) * ((root / n + 1) * n),
{
    let q = root / n;
    let m = root % n;
    lemma_fundamental_div_mod(root as int, n as int);
    assert(q * n <= root) by (nonlinear_arith)
        requires
            root == n * q + m,
            m >= 0,
    ;
    assert((q + 1) * n >= root + 1) by (nonlinear_arith)
        requires
            root == n * q + m,
            m < n,
    ;
    assert((q * n) * (q * n) <= root * root) by (nonlinear_arith)
        requires
            q * n <= root,
    ;
    assert(((q + 1) * n) * ((q + 1) * n) >= (root + 1) * (root + 1)) by (nonlinear_arith)
        requires
            (q + 1) * n >= root + 1,
    ;
}

/// Sum of `(x - c)^2` over the samples.
spec fn dev_sum(s: Seq<u32>, c: int) -> int
    decreases s.len(),
{
    if s.len() == 0 {
        0
    } else {
        dev_sum(s.drop_last(), c) + (s.last() - c) * (s.last() - c)
    }
}

proof fn lemma_dev_sum(s: Seq<u32>, c: int)
    ensures
        dev_sum(s, c) == seq_sum_sq(s) - 2 * c * seq_sum(s) + s.len() * c * c,
        dev_sum(s, c) >= 0,
    decreases s.len(),
{
    if s.len() > 0 {
        let t = s.drop_last();
        lemma_dev_sum(t, c);
        let x = s.last() as int;
        assert((x - c) * (x - c) >= 0) by (nonlinear_arith);
        assert(dev_sum(s, c) == seq_sum_sq(s) - 2 * c * seq_sum(s) + s.len() * c * c) by (
        nonlinear_arith)
            requires
                dev_sum(s, c) == dev_sum(t, c) + (x - c) * (x - c),
                dev_sum(t, c) == seq_sum_sq(t) - 2 * c * seq_sum(t) + t.len() * c * c,
                seq_sum_sq(s) == seq_sum_sq(t) + x * x,
                seq_sum(s) == seq_sum(t) + x,
                s.len() == t.len() + 1,
        ;
    } else {
        assert(s.len() * c * c == 0 && 2 * c * seq_sum(s) == 0) by (nonlinear_arith)
            requires
                s.len() == 0,
                seq_sum(s) == 0,
        ;
    }
}

/// The variance is never negative: `n * sum(x^2) >= (sum x)^2`.
proof fn lemma_spread_nonneg(s: Seq<u32>)
    ensures
        spread(s) >= 0,
    decreases s.len(),
{
    if s.len() > 0 {
        let t = s.drop_last();
        let x = s.last() as int;
        lemma_spread_nonneg(t);
        lemma_dev_sum(t, x);
        assert(spread(s) == spread(t) + dev_sum(t, x)) by (nonlinear_arith)
            requires
                spread(s) == s.len() * seq_sum_sq(s) - seq_sum(s) * seq_sum(s),
                spread(t) == t.len() * seq_sum_sq(t) - seq_sum(t) * seq_sum(t),
                dev_sum(t, x) == seq_sum_sq(t) - 2 * x * seq_sum(t) + t.len() * x * x,
                seq_sum_sq(s) == seq_sum_sq(t) + x * x,
                seq_sum(s) == seq_sum(t) + x,
                s.len() == t.len() + 1,
        ;
    }
}

proof fn lemma_rank_in_range(p: nat, n: nat)
    requires
        p <= 1000,
        n >= 1,
    ensures
        nearest_rank(p, n) < n,
{
    assert(2 * p * (n - 1) <= 2000 * (n - 1)) by (nonlinear_arith)
        requires
            p <= 1000,
            n >= 1,
    ;
    lemma_div_is_ordered((2 * p * (n - 1) + 1000) as int, (2000 * (n - 1) + 1000) as int, 2000);
    assert((2000 * (n - 1) + 1000) as int / 2000 == n - 1);
}

proof fn lemma_leq_total()
    ensures
        total_ordering(sample_leq()),
{
}

/// An ascending permutation of `s` is the sorted order of `s`.
proof fn lemma_sorted_is_sort_by(s: Seq<u32>, v: Seq<u32>)
    requires
        sorted_by(v, sample_leq()),
        v.to_multiset() == s.to_multiset(),
    ensures
        v == sorted_samples(s),
        v.len() == s.len(),
{
    s.lemma_sort_by_ensures(sample_leq());
    lemma_leq_total();
    lemma_sorted_unique(v, sorted_samples(s), sample_leq());
    to_multiset_len(v);
    to_multiset_len(s);
}

/// The ascending order has as many samples as `s`.
proof fn lemma_sorted_len(s: Seq<u32>)
    ensures
        sorted_samples(s).len() == s.len(),
        sorted_by(sorted_samples(s), sample_leq()),
{
    s.lemma_sort_by_ensures(sample_leq());
    to_multiset_len(sorted_samples(s));
    to_multiset_len(s);
}

/// A copy of `v` in ascending order.
fn sort_ascending(v: &Vec<u32>) -> (r: Vec<u32>)
    ensures
        sorted_by(r@, sample_leq()),
        r@.to_multiset() == v@.to_multiset(),
{
    let mut out: Vec<u32> = Vec::new();
    let n = v.len();
    let mut i: usize = 0;
    while i < n
        invariant
            n == v@.len(),
            i <= n,
            sorted_by(out@, sample_leq()),
            out@.to_multiset() == v@.subrange(0, i as int).to_multiset(),
            out@.len() == i,
        decreases n - i,
    {
        let x = v[i];
        let mut pos: usize = 0;
        while pos < out.len() && out[pos] <= x
            invariant
                pos <= out@.len(),
                forall|k: int| 0 <= k < pos ==> out@[k] <= x,
            decreases out@.len() - pos,
        {
            pos = pos + 1;
        }
        let ghost before = out@;
        out.insert(pos, x);
        proof {
            assert(forall|k: int| pos <= k < before.len() ==> x < before[k]) by {
                assert forall|k: int| pos <= k < before.len() implies x < before[k] by {
                    assert(sample_leq()(before[pos as int], before[k]) || k == pos);
                }
            }
            assert(v@.subrange(0, i + 1) =~= v@.subrange(0, i as int).push(x));
            assert forall|a: int, b: int| 0 <= a < b < out@.len() implies #[trigger] sample_leq()(
                out@[a],
                out@[b],
            ) by {
                if b < pos {
                    assert(sample_leq()(before[a], before[b]));
                } else if b == pos {
                    assert(out@[a] == before[a]);
                } else if a < pos {
                    assert(out@[a] == before[a]);
                    assert(out@[b] == before[b - 1]);
                } else if a == pos {
                    assert(out@[b] == before[b - 1]);
                } else {
                    assert(sample_leq()(before[a - 1], before[b - 1]));
                }
            }
        }
        i = i + 1;
    }
    assert(v@.subrange(0, n as int) =~= v@);
    out
}

/// Raising the rank never lowers the percentile.
pub proof fn lemma_percentile_monotonic(s: Seq<u32>, p_low: nat, p_high: nat)
    requires
        p_low <= p_high <= 1000,
    ensures
        percentile_of(s, p_low) <= percentile_of(s, p_high),
{
    if s.len() > 0 {
        let n = s.len();
        lemma_sorted_len(s);
        lemma_rank_in_range(p_low, n);
        lemma_rank_in_range(p_high, n);
        assert(2 * p_low * (n - 1) <= 2 * p_high * (n - 1)) by (nonlinear_arith)
            requires
                p_low <= p_high,
                n >= 1,
        ;
        lemma_div_is_ordered(
            (2 * p_low * (n - 1) + 1000) as int,
            (2 * p_high * (n - 1) + 1000) as int,
            2000,
        );
        let r_low = nearest_rank(p_low, n) as int;
        let r_high = nearest_rank(p_high, n) as int;
        let v = sorted_samples(s);
        if r_low < r_high {
            assert(sample_leq()(v[r_low], v[r_high]));
        }
    }
}

/// Merging is associative: the counters, extrema, sums and the sample list
/// are the same whichever way three accumulators are grouped.
pub proof fn lemma_merge_associative(a: StatsModel, b: StatsModel, c: StatsModel)
    ensures
        a.merged(b).merged(c) == a.merged(b.merged(c)),
{
    assert((a.samples + b.samples) + c.samples =~= a.samples + (b.samples + c.samples));
}

/// Merging is commutative on the counters, extrema, sums and the multiset of samples.
pub proof fn lemma_merge_commutative(a: StatsModel, b: StatsModel)
    ensures
        ({
            let ab = a.merged(b);
            let ba = b.merged(a);
            &&& ab.sent == ba.sent && ab.received == ba.received && ab.lost == ba.lost
            &&& ab.min == ba.min && ab.max == ba.max && ab.total == ba.total
            &&& ab.jitter_sum == ba.jitter_sum && ab.jitter_count == ba.jitter_count
            &&& ab.samples.to_multiset() == ba.samples.to_multiset()
        }),
{
    lemma_seq_union_to_multiset_commutative(a.samples, b.samples);
}

/// Merging accumulators in which every probe is accounted for gives one in
/// which every probe is accounted for.
pub proof fn lemma_merge_balanced(a: StatsModel, b: StatsModel)
    requires
        a.balanced(),
        b.balanced(),
    ensures
        a.merged(b).balanced(),
{
}

} // verus!
