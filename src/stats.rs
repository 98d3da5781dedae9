use crate::clock::now_at_least;
use vstd::arithmetic::div_mod::lemma_fundamental_div_mod;
use vstd::prelude::*;

verus! {

/// Largest payload length that a sample may carry.
pub const MAX_BYTES: i32 = 2147483647;

/// Starting value of the smallest inter-arrival time: no gap in nanoseconds
/// is larger, so the first gap always replaces it.
pub const INTER_ARRIVAL_MIN_START: u64 = 18446744073709551615;

/// Bits per second for one byte per nanosecond.
pub const BITS_PER_BYTE_NANO: u128 = 8000000000;

/// An exact non-negative fraction `numer / denom`.
#[derive(Clone, Copy, Debug, PartialEq, Eq, Structural)]
pub struct Ratio {
    pub numer: u128,
    pub denom: u128,
}

impl Ratio {
    /// Zero, as `0 / 1`.
    pub open spec fn zero() -> Ratio {
        Ratio { numer: 0, denom: 1 }
    }

    /// Whether the fraction is the whole number `k`.
    pub open spec fn is_int(self, k: int) -> bool {
        self.denom > 0 && self.numer == k * self.denom
    }

    /// Tells whether the fraction equals the whole number `k`.
    pub fn equals_int(&self, k: u64) -> (r: bool)
        ensures
            r == self.is_int(k as int),
    {
        if self.denom == 0 {
            return false;
        }
        proof {
            lemma_fundamental_div_mod(self.numer as int, self.denom as int);
        }
        let q = self.numer / self.denom;
        let m = self.numer % self.denom;
        let r = m == 0 && q == k as u128;
        proof {
            if r {
                assert(self.numer == k * self.denom) by (nonlinear_arith)
                    requires
                        self.numer == self.denom * q + m,
                        m == 0,
                        q == k,
                ;
            }
            if self.numer == k * self.denom {
                assert(self.denom * q + m == self.denom * k);
                assert(q == k && m == 0) by (nonlinear_arith)
                    requires
                        self.denom * q + m == self.denom * k,
                        0 <= m < self.denom,
                        self.denom > 0,
                        q >= 0,
                ;
            }
        }
        r
    }
}

/// One message's size and arrival instant (nanoseconds).
#[derive(Clone, Copy, Debug, PartialEq, Eq, Structural)]
pub struct MessageStats {
    pub bytes: i32,
    pub time: u64,
}

impl MessageStats {
    /// An empty sample taken now.
    pub fn new() -> (r: MessageStats)
        ensures
            r.bytes == 0,
    {
        MessageStats::from_time(now_at_least(0))
    }

    /// An empty sample at the given instant.
    pub fn from_time(time: u64) -> (r: MessageStats)
        ensures
            r.bytes == 0,
            r.time == time,
    {
        MessageStats { time, bytes: 0 }
    }
}

/// Running statistics of one topic.
///
/// Means are kept exactly, as a running total over a count: the incremental
/// rule `mean' = mean + (x - mean) / n'` is exact on such fractions. The size
/// jitter is the mean absolute difference between consecutive payload sizes,
/// not a variance.
#[derive(Clone, Copy, Debug, PartialEq, Eq, Structural)]
pub struct TopicStats {
    pub old: MessageStats,
    pub last: MessageStats,
    pub qos: i32,
    pub created: u64,
    pub message_count: u64,
    pub bytes_total: u128,
    pub bytes_min: i32,
    pub bytes_max: i32,
    pub jitter_total: u128,
    pub inter_arrival_total: u64,
    pub inter_arrival_max: u64,
    pub inter_arrival_min: u64,
    pub throughput: Ratio,
}

/// Absolute difference of two payload sizes.
pub open spec fn abs_diff(a: i32, b: i32) -> int {
    if a >= b {
        a - b
    } else {
        b - a
    }
}

/// Throughput in bits per second for `bytes` arriving `gap` nanoseconds after the one
/// before; zero where the gap is zero.
pub open spec fn throughput_spec(bytes: i32, gap: u64) -> Ratio {
    if gap == 0 {
        Ratio::zero()
    } else {
        Ratio { numer: (bytes * BITS_PER_BYTE_NANO) as u128, denom: gap as u128 }
    }
}

/// Statistics of a topic whose only sample is `bytes` at `time`.
pub open spec fn new_spec(bytes: i32, qos: i32, time: u64) -> TopicStats {
    TopicStats {
        old: MessageStats { bytes: 0, time },
        last: MessageStats { bytes, time },
        qos,
        created: time,
        message_count: 1,
        bytes_total: bytes as u128,
        bytes_min: bytes,
        bytes_max: bytes,
        jitter_total: 0,
        inter_arrival_total: 0,
        inter_arrival_max: 0,
        inter_arrival_min: INTER_ARRIVAL_MIN_START,
        throughput: Ratio::zero(),
    }
}

/// Statistics after folding in the sample `bytes` at `time`.
pub open spec fn advance_spec(s: TopicStats, bytes: i32, qos: i32, time: u64) -> TopicStats {
    let gap = (time - s.last.time) as u64;
    TopicStats {
        old: s.last,
        last: MessageStats { bytes, time },
        qos,
        created: s.created,
        message_count: (s.message_count + 1) as u64,
        bytes_total: (s.bytes_total + bytes) as u128,
        bytes_min: if bytes < s.bytes_min {
            bytes
        } else {
            s.bytes_min
        },
        bytes_max: if bytes > s.bytes_max {
            bytes
        } else {
            s.bytes_max
        },
        jitter_total: (s.jitter_total + abs_diff(s.last.bytes, bytes)) as u128,
        inter_arrival_total: (s.inter_arrival_total + gap) as u64,
        inter_arrival_max: if gap > s.inter_arrival_max {
            gap
        } else {
            s.inter_arrival_max
        },
        inter_arrival_min: if gap < s.inter_arrival_min {
            gap
        } else {
            s.inter_arrival_min
        },
        throughput: throughput_spec(bytes, gap),
    }
}

impl TopicStats {
    /// The invariant that every reachable state keeps.
    pub open spec fn wf(self) -> bool {
        &&& self.message_count >= 1
        &&& self.created <= self.old.time <= self.last.time
        &&& 0 <= self.bytes_min <= self.last.bytes <= self.bytes_max
        &&& self.bytes_total <= self.message_count * MAX_BYTES
        &&& self.message_count * self.bytes_min <= self.bytes_total <= self.message_count
            * self.bytes_max
        &&& self.jitter_total <= (self.message_count - 1) * MAX_BYTES
        &&& self.inter_arrival_total == self.last.time - self.created
        &&& self.message_count == 1 ==> self.last.time == self.created
    }

    /// Whether one more sample can be counted.
    pub open spec fn has_room(self) -> bool {
        self.message_count < u64::MAX
    }

    /// Mean payload size: the total over the count.
    pub open spec fn bytes_mean_spec(self) -> Ratio {
        Ratio { numer: self.bytes_total, denom: self.message_count as u128 }
    }

    /// Mean absolute size difference between consecutive samples; zero before
    /// the second sample.
    pub open spec fn bytes_jitter_spec(self) -> Ratio {
        if self.message_count <= 1 {
            Ratio::zero()
        } else {
            Ratio { numer: self.jitter_total, denom: (self.message_count - 1) as u128 }
        }
    }

    /// Mean time between consecutive samples; zero before the second sample.
    pub open spec fn inter_arrival_mean_spec(self) -> Ratio {
        if self.message_count <= 1 {
            Ratio::zero()
        } else {
            Ratio {
                numer: self.inter_arrival_total as u128,
                denom: (self.message_count - 1) as u128,
            }
        }
    }

    /// Statistics of a topic whose first sample, `bytes`, arrives at `time`.
    pub fn new_at(bytes: i32, qos: i32, time: u64) -> (r: TopicStats)
        requires
            bytes >= 0,
        ensures
            r == new_spec(bytes, qos, time),
            r.wf(),
    {
        TopicStats {
            old: MessageStats::from_time(time),
            last: MessageStats { bytes, time },
            qos,
            created: time,
            message_count: 1,
            bytes_total: bytes as u128,
            bytes_min: bytes,
            bytes_max: bytes,
            jitter_total: 0,
            inter_arrival_total: 0,
            inter_arrival_max: 0,
            inter_arrival_min: INTER_ARRIVAL_MIN_START,
            throughput: Ratio { numer: 0, denom: 1 },
        }
    }

    /// Statistics of a topic whose first sample, `bytes`, arrives now.
    pub fn new(bytes: i32, qos: i32) -> (r: TopicStats)
        requires
            bytes >= 0,
        ensures
            r == new_spec(bytes, qos, r.created),
            r.wf(),
    {
        let time = now_at_least(0);
        TopicStats::new_at(bytes, qos, time)
    }

    /// The statistics after the sample `bytes` arriving at `time`; the state
    /// itself is left as it is.
    pub fn advance_at(&self, bytes: i32, qos: i32, time: u64) -> (r: TopicStats)
        requires
            self.wf(),
            self.has_room(),
            bytes >= 0,
            time >= self.last.time,
        ensures
            r == advance_spec(*self, bytes, qos, time),
            r.wf(),
    {
        let message_count = self.message_count + 1;
        let bytes_total = self.bytes_total + bytes as u128;
        let bytes_min = if bytes < self.bytes_min {
            bytes
        } else {
            self.bytes_min
        };
        let bytes_max = if bytes > self.bytes_max {
            bytes
        } else {
            self.bytes_max
        };
        let difference: i32 = if self.last.bytes >= bytes {
            self.last.bytes - bytes
        } else {
            bytes - self.last.bytes
        };
        let jitter_total = self.jitter_total + difference as u128;
        let gap = time - self.last.time;
        let inter_arrival_total = self.inter_arrival_total + gap;
        let inter_arrival_max = if gap > self.inter_arrival_max {
            gap
        } else {
            self.inter_arrival_max
        };
        let inter_arrival_min = if gap < self.inter_arrival_min {
            gap
        } else {
            self.inter_arrival_min
        };
        let throughput = if gap == 0 {
            Ratio { numer: 0, denom: 1 }
        } else {
            Ratio { numer: bytes as u128 * BITS_PER_BYTE_NANO, denom: gap as u128 }
        };
        proof {
            let n = self.message_count as int;
            assert(bytes_total <= (n + 1) * MAX_BYTES) by (nonlinear_arith)
                requires
                    self.bytes_total <= n * MAX_BYTES,
                    bytes <= MAX_BYTES,
                    bytes_total == self.bytes_total + bytes,
            ;
            assert((n + 1) * bytes_min <= bytes_total <= (n + 1) * bytes_max) by (nonlinear_arith)
                requires
                    n * self.bytes_min <= self.bytes_total <= n * self.bytes_max,
                    bytes_total == self.bytes_total + bytes,
                    bytes_min <= self.bytes_min,
                    bytes_min <= bytes,
                    bytes_max >= self.bytes_max,
                    bytes_max >= bytes,
                    n >= 1,
            ;
            assert(jitter_total <= n * MAX_BYTES) by (nonlinear_arith)
                requires
                    self.jitter_total <= (n - 1) * MAX_BYTES,
                    difference <= MAX_BYTES,
                    jitter_total == self.jitter_total + difference,
            ;
        }
        TopicStats {
            old: self.last,
            last: MessageStats { bytes, time },
            qos,
            created: self.created,
            message_count,
            bytes_total,
            bytes_min,
            bytes_max,
            jitter_total,
            inter_arrival_total,
            inter_arrival_max,
            inter_arrival_min,
            throughput,
        }
    }

    /// The statistics after the sample `bytes` arriving now; the state itself
    /// is left as it is.
    pub fn create_datapoint(&self, bytes: i32, qos: i32) -> (r: TopicStats)
        requires
            self.wf(),
            self.has_room(),
            bytes >= 0,
        ensures
            r.last.time >= self.last.time,
            r == advance_spec(*self, bytes, qos, r.last.time),
            r.wf(),
    {
        let time = now_at_least(self.last.time);
        self.advance_at(bytes, qos, time)
    }
    /// Mean payload size over all samples.
    pub fn bytes_mean(&self) -> (r: Ratio)
        ensures
            r == self.bytes_mean_spec(),
    {
        Ratio { numer: self.bytes_total, denom: self.message_count as u128 }
    }

    /// Size jitter: mean absolute size difference between consecutive samples.
    pub fn bytes_jitter(&self) -> (r: Ratio)
        ensures
            r == self.bytes_jitter_spec(),
    {
        if self.message_count <= 1 {
            Ratio { numer: 0, denom: 1 }
        } else {
            Ratio { numer: self.jitter_total, denom: (self.message_count - 1) as u128 }
        }
    }

    /// Mean time between consecutive samples, in nanoseconds.
    pub fn inter_arrival_mean(&self) -> (r: Ratio)
        ensures
            r == self.inter_arrival_mean_spec(),
    {
        if self.message_count <= 1 {
            Ratio { numer: 0, denom: 1 }
        } else {
            Ratio {
                numer: self.inter_arrival_total as u128,
                denom: (self.message_count - 1) as u128,
            }
        }
    }
}

/// The running means follow the incremental rule `mean' = mean + (x - mean) / k`,
/// stated here multiplied out over the exact fractions: `k` is the new count
/// for the size mean, and the number of gaps (the old count) for the size
/// jitter and the inter-arrival mean, whose `x` is the new size difference and
/// the new gap.
pub proof fn lemma_incremental_means(s: TopicStats, bytes: i32, qos: i32, time: u64)
    requires
        s.wf(),
        s.has_room(),
        bytes >= 0,
        time >= s.last.time,
    ensures
        ({
            let r = advance_spec(s, bytes, qos, time);
            let n = s.message_count as int;
            let gap = time - s.last.time;
            &&& r.bytes_mean_spec().numer * n == s.bytes_mean_spec().numer * (n + 1) + (bytes * n
                - s.bytes_mean_spec().numer)
            &&& r.bytes_jitter_spec().numer * (n - 1) == s.bytes_jitter_spec().numer * n + (abs_diff(
                s.last.bytes,
                bytes,
            ) * (n - 1) - s.bytes_jitter_spec().numer)
            &&& r.inter_arrival_mean_spec().numer * (n - 1) == s.inter_arrival_mean_spec().numer * n
                + (gap * (n - 1) - s.inter_arrival_mean_spec().numer)
            &&& r.bytes_jitter_spec().denom == n
            &&& r.inter_arrival_mean_spec().denom == n
        }),
{
    let r = advance_spec(s, bytes, qos, time);
    let n = s.message_count as int;
    let gap = time - s.last.time;
    let d = abs_diff(s.last.bytes, bytes);
    assert(r.bytes_total == s.bytes_total + bytes) by (nonlinear_arith)
        requires
            s.bytes_total <= n * MAX_BYTES,
            n < u64::MAX,
            0 <= bytes <= MAX_BYTES,
            r.bytes_total == (s.bytes_total + bytes) as u128,
    ;
    assert(r.bytes_total * n == s.bytes_total * (n + 1) + (bytes * n - s.bytes_total))
        by (nonlinear_arith)
        requires
            r.bytes_total == s.bytes_total + bytes,
    ;
    assert(r.jitter_total == s.jitter_total + d) by (nonlinear_arith)
        requires
            s.jitter_total <= (n - 1) * MAX_BYTES,
            n < u64::MAX,
            0 <= d <= MAX_BYTES,
            r.jitter_total == (s.jitter_total + d) as u128,
    ;
    assert(r.inter_arrival_total == s.inter_arrival_total + gap);
    if n == 1 {
        assert(s.jitter_total == 0);
        assert(s.inter_arrival_total == 0);
    } else {
        assert(r.jitter_total * (n - 1) == s.jitter_total * n + (d * (n - 1) - s.jitter_total))
            by (nonlinear_arith)
            requires
                r.jitter_total == s.jitter_total + d,
        ;
        assert(r.inter_arrival_total * (n - 1) == s.inter_arrival_total * n + (gap * (n - 1)
            - s.inter_arrival_total)) by (nonlinear_arith)
            requires
                r.inter_arrival_total == s.inter_arrival_total + gap,
        ;
    }
}

/// One sample: payload size, quality of service, arrival instant.
pub type Sample = (i32, i32, u64);

/// The state reached from `s` by folding in `samples` in order.
pub open spec fn fold_samples(s: TopicStats, samples: Seq<Sample>) -> TopicStats
    decreases samples.len(),
{
    if samples.len() == 0 {
        s
    } else {
        let x = samples.last();
        advance_spec(fold_samples(s, samples.drop_last()), x.0, x.1, x.2)
    }
}

/// The count of a topic equals the number of samples folded into it, the
/// first one included.
pub proof fn lemma_count_is_samples(bytes: i32, qos: i32, time: u64, samples: Seq<Sample>)
    requires
        samples.len() + 1 < u64::MAX,
    ensures
        fold_samples(new_spec(bytes, qos, time), samples).message_count == samples.len() + 1,
    decreases samples.len(),
{
    if samples.len() > 0 {
        lemma_count_is_samples(bytes, qos, time, samples.drop_last());
    }
}

/// The size extrema only widen: along any run of samples the smallest size
/// never grows and the largest never shrinks, from any state to any later one.
pub proof fn lemma_extrema_monotone(s: TopicStats, samples: Seq<Sample>, i: int, j: int)
    requires
        0 <= i <= j <= samples.len(),
    ensures
        fold_samples(s, samples.take(j)).bytes_min <= fold_samples(s, samples.take(i)).bytes_min,
        fold_samples(s, samples.take(j)).bytes_max >= fold_samples(s, samples.take(i)).bytes_max,
    decreases j - i,
{
    if i < j {
        lemma_extrema_monotone(s, samples, i, j - 1);
        assert(samples.take(j).drop_last() =~= samples.take(j - 1));
    }
}

} // verus!
