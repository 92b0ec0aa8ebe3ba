use vstd::arithmetic::div_mod::{
    lemma_div_is_ordered, lemma_div_is_ordered_by_denominator, lemma_div_multiples_vanish,
    lemma_mod_bound,
};
use vstd::arithmetic::mul::lemma_mul_inequality;
use vstd::prelude::*;

verus! {

/// Sum of a burst of latency samples, each in whole milliseconds.
pub open spec fn spec_sum(s: Seq<u64>) -> int
    decreases s.len(),
{
    if s.len() == 0 {
        0
    } else {
        spec_sum(s.drop_last()) + s.last()
    }
}

/// The latency reported for a completed burst, in hundredths of a
/// millisecond: the sample sum scaled to hundredths and divided by the
/// configured normalization divisor, rounded to the nearest hundredth with
/// halves rounding up.
pub open spec fn spec_mean_latency_centi(samples: Seq<u64>, divisor: u64) -> int
    recommends
        divisor >= 1,
{
    let scaled = spec_sum(samples) * 100;
    if 2 * (scaled % (divisor as int)) >= divisor as int {
        scaled / (divisor as int) + 1
    } else {
        scaled / (divisor as int)
    }
}

proof fn lemma_sum_nonneg(s: Seq<u64>)
    ensures
        spec_sum(s) >= 0,
    decreases s.len(),
{
    if s.len() > 0 {
        lemma_sum_nonneg(s.drop_last());
    }
}

proof fn lemma_sum_extend(s: Seq<u64>, i: int)
    requires
        0 <= i < s.len(),
    ensures
        spec_sum(s.subrange(0, i + 1)) == spec_sum(s.subrange(0, i)) + s[i],
{
    assert(s.subrange(0, i + 1).drop_last() =~= s.subrange(0, i));
    assert(s.subrange(0, i + 1).last() == s[i]);
}

proof fn lemma_sum_prefix_le(s: Seq<u64>, i: int)
    requires
        0 <= i <= s.len(),
    ensures
        spec_sum(s.subrange(0, i)) <= spec_sum(s),
    decreases s.len() - i,
{
    if i == s.len() {
        assert(s.subrange(0, i) =~= s);
    } else {
        lemma_sum_extend(s, i);
        lemma_sum_prefix_le(s, i + 1);
    }
}

/// Computes the mean latency of a completed probe burst. The sum bound is a
/// machine limit: the scaled sum must fit the result type.
pub fn mean_latency_centi(samples: &Vec<u64>, divisor: u64) -> (r: u64)
    requires
        divisor >= 1,
        spec_sum(samples@) * 100 <= u64::MAX,
    ensures
        r == spec_mean_latency_centi(samples@, divisor),
{
    let n = samples.len();
    let mut total: u64 = 0;
    let mut i: usize = 0;
    proof {
        assert(samples@.subrange(0, 0) =~= Seq::<u64>::empty());
        lemma_sum_nonneg(samples@);
    }
    while i < n
        invariant
            i <= n,
            n == samples@.len(),
            total == spec_sum(samples@.subrange(0, i as int)),
            spec_sum(samples@) * 100 <= u64::MAX,
            spec_sum(samples@) >= 0,
        decreases n - i,
    {
        proof {
            lemma_sum_extend(samples@, i as int);
            lemma_sum_prefix_le(samples@, i + 1);
        }
        total = total + samples[i];
        i = i + 1;
    }
    proof {
        assert(samples@.subrange(0, n as int) =~= samples@);
    }
    let scaled = total * 100;
    let quotient = scaled / divisor;
    let remainder = scaled % divisor;
    if remainder >= divisor - remainder {
        proof {
            lemma_mod_bound(scaled as int, divisor as int);
            // A half or more remains only with a divisor of at least 2, so
            // the rounded-up quotient stays within the result type.
            assert(divisor >= 2);
            lemma_div_is_ordered_by_denominator(scaled as int, 2, divisor as int);
            lemma_div_is_ordered(scaled as int, u64::MAX as int, 2);
        }
        quotient + 1
    } else {
        quotient
    }
}

/// The latency outcome of a probe: a burst that did not complete reports
/// the unmeasured sentinel 0 rather than an error, so one candidate's
/// failure only disqualifies that candidate.
pub fn latency_result(samples: Option<&Vec<u64>>, divisor: u64) -> (r: u64)
    requires
        divisor >= 1,
        samples matches Some(s) ==> spec_sum(s@) * 100 <= u64::MAX,
    ensures
        samples matches Some(s) ==> r == spec_mean_latency_centi(s@, divisor),
        samples is None ==> r == 0,
{
    match samples {
        Some(s) => mean_latency_centi(s, divisor),
        None => 0,
    }
}

/// Transfer rate in hundredths of a megabyte per second: bytes received
/// over elapsed wall time, with a megabyte of 1024 x 1024 bytes (integer
/// division). An elapsed time of zero whole milliseconds cannot yield a
/// rate and maps to the unmeasured sentinel 0.
pub open spec fn spec_speed_centi(bytes: u64, elapsed_ms: u64) -> int {
    if elapsed_ms == 0 {
        0
    } else {
        (bytes * 100000) / (1048576 * elapsed_ms)
    }
}

/// Computes the measured transfer rate of one throughput probe.
pub fn speed_centi(bytes: u64, elapsed_ms: u64) -> (r: u64)
    ensures
        r == spec_speed_centi(bytes, elapsed_ms),
{
    if elapsed_ms == 0 {
        return 0;
    }
    let num: u128 = (bytes as u128) * 100000;
    let den: u128 = 1048576u128 * (elapsed_ms as u128);
    let q: u128 = num / den;
    proof {
        lemma_mul_inequality(1, elapsed_ms as int, 1048576);
        assert(den >= 1048576);
        lemma_div_is_ordered_by_denominator(num as int, 1048576, den as int);
        lemma_mul_inequality(100000, 1048576, bytes as int);
        lemma_div_is_ordered(num as int, (bytes as int) * 1048576, 1048576);
        lemma_div_multiples_vanish(bytes as int, 1048576);
        assert(q <= bytes);
    }
    q as u64
}

/// Gate 1: a candidate proceeds to the throughput probe only on a positive
/// measured latency within the threshold. The sentinel 0 never passes,
/// whether it meant "no response" or "uncomputed".
pub open spec fn spec_latency_admits(latency_centi: u64, threshold_centi: u64) -> bool {
    0 < latency_centi <= threshold_centi
}

pub fn latency_admits(latency_centi: u64, threshold_centi: u64) -> (r: bool)
    ensures
        r == spec_latency_admits(latency_centi, threshold_centi),
{
    latency_centi > 0 && latency_centi <= threshold_centi
}

/// Gate 2: an outcome is recorded only if the measured rate strictly
/// exceeds the admission threshold.
pub open spec fn spec_throughput_admits(speed_centi: u64, threshold_centi: u64) -> bool {
    speed_centi > threshold_centi
}

pub fn throughput_admits(speed_centi: u64, threshold_centi: u64) -> (r: bool)
    ensures
        r == spec_throughput_admits(speed_centi, threshold_centi),
{
    speed_centi > threshold_centi
}

} // verus!
