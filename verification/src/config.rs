use vstd::prelude::*;

verus! {

/// The knobs of one benchmarking run: probe shape, admission thresholds,
/// concurrency and output handling.
///
/// Durations are in milliseconds, latencies in hundredths of a millisecond
/// and transfer rates in hundredths of a megabyte per second, so thresholds
/// with two decimal places are exact integers.
pub struct Config {
    /// Number of latency samples taken per candidate.
    pub probe_count: u64,
    /// Divisor applied to the summed latency samples to form the mean. This
    /// normalization constant is configured independently of `probe_count`.
    pub latency_divisor: u64,
    /// Pause between consecutive latency samples, in milliseconds.
    pub inter_probe_delay_ms: u64,
    /// Per-request timeout of the latency probe, in milliseconds (0 = none).
    pub latency_timeout_ms: u64,
    /// Per-request timeout of the throughput probe, in milliseconds (0 = none).
    pub throughput_timeout_ms: u64,
    /// A candidate passes the latency gate only if its measured latency is
    /// positive and at most this bound, in hundredths of a millisecond.
    pub latency_threshold_centi_ms: u64,
    /// A candidate is admitted only if its measured rate is strictly above
    /// this bound, in hundredths of a megabyte per second.
    pub throughput_threshold_centi: u64,
    /// Upper bound on the number of candidate pipelines in flight at once.
    pub concurrency_cap: usize,
    /// Keep only this many of the best outcomes (0 = unbounded).
    pub truncation_limit: usize,
    /// Whether admitted candidates are annotated with a location code.
    pub enrichment: bool,
}

impl Config {
    /// A usable configuration: the latency mean needs a positive divisor,
    /// and the fan-out needs room for at least one pipeline.
    pub open spec fn wf(self) -> bool {
        &&& self.latency_divisor >= 1
        &&& self.concurrency_cap >= 1
    }

    pub fn new(
        probe_count: u64,
        latency_divisor: u64,
        inter_probe_delay_ms: u64,
        latency_timeout_ms: u64,
        throughput_timeout_ms: u64,
        latency_threshold_centi_ms: u64,
        throughput_threshold_centi: u64,
        concurrency_cap: usize,
        truncation_limit: usize,
        enrichment: bool,
    ) -> (c: Config)
        requires
            latency_divisor >= 1,
            concurrency_cap >= 1,
        ensures
            c.wf(),
            c == (Config {
                probe_count,
                latency_divisor,
                inter_probe_delay_ms,
                latency_timeout_ms,
                throughput_timeout_ms,
                latency_threshold_centi_ms,
                throughput_threshold_centi,
                concurrency_cap,
                truncation_limit,
                enrichment,
            }),
    {
        Config {
            probe_count,
            latency_divisor,
            inter_probe_delay_ms,
            latency_timeout_ms,
            throughput_timeout_ms,
            latency_threshold_centi_ms,
            throughput_threshold_centi,
            concurrency_cap,
            truncation_limit,
            enrichment,
        }
    }
}

} // verus!
