use crate::config::Config;
use crate::probe::{
    latency_admits, spec_latency_admits, spec_speed_centi, spec_throughput_admits, speed_centi,
    throughput_admits,
};
use crate::results::Outcome;
use vstd::prelude::*;

verus! {

/// Where one candidate stands in its probing pipeline.
pub enum Stage {
    /// The latency probe has not reported yet.
    AwaitLatency,
    /// The latency gate passed; the throughput probe has not reported yet.
    AwaitThroughput { latency_centi: u64 },
    /// The candidate failed a gate and is out of the run.
    Rejected,
    /// Both gates passed, with this measured rate.
    Admitted { speed_centi: u64 },
}

/// The per-candidate unit of work of the coordinator: latency probe,
/// latency gate, throughput probe, throughput gate. The driver performs
/// the probes and feeds each measurement in; every admission decision is
/// taken here. A pipeline owns no shared state, so one candidate's failure
/// cannot touch another's.
pub struct CandidatePipeline {
    pub addr: Vec<u8>,
    pub latency_threshold_centi_ms: u64,
    pub throughput_threshold_centi: u64,
    pub stage: Stage,
}

impl CandidatePipeline {
    /// What holds in every reachable state: only a pipeline whose measured
    /// latency passed the cheap gate waits on the expensive throughput
    /// probe, and only one whose measured rate beat the admission threshold
    /// is admitted.
    pub open spec fn wf(self) -> bool {
        &&& (self.stage matches Stage::AwaitThroughput { latency_centi } ==> spec_latency_admits(
            latency_centi,
            self.latency_threshold_centi_ms,
        ))
        &&& (self.stage matches Stage::Admitted { speed_centi } ==> spec_throughput_admits(
            speed_centi,
            self.throughput_threshold_centi,
        ))
    }

    /// Opens the pipeline for one candidate under the run's configuration.
    pub fn start(addr: Vec<u8>, cfg: &Config) -> (p: CandidatePipeline)
        ensures
            p.wf(),
            p.stage == Stage::AwaitLatency,
            p.addr == addr,
            p.latency_threshold_centi_ms == cfg.latency_threshold_centi_ms,
            p.throughput_threshold_centi == cfg.throughput_threshold_centi,
    {
        CandidatePipeline {
            addr,
            latency_threshold_centi_ms: cfg.latency_threshold_centi_ms,
            throughput_threshold_centi: cfg.throughput_threshold_centi,
            stage: Stage::AwaitLatency,
        }
    }

    /// Applies the latency gate to the probe's report, in hundredths of a
    /// millisecond. The sentinel 0 of a failed or unmeasured burst never
    /// passes, whatever its cause.
    pub fn on_latency(&mut self, latency_centi: u64)
        requires
            old(self).wf(),
            old(self).stage == Stage::AwaitLatency,
        ensures
            final(self).wf(),
            final(self).addr == old(self).addr,
            final(self).latency_threshold_centi_ms == old(self).latency_threshold_centi_ms,
            final(self).throughput_threshold_centi == old(self).throughput_threshold_centi,
            spec_latency_admits(latency_centi, old(self).latency_threshold_centi_ms)
                ==> final(self).stage == (Stage::AwaitThroughput { latency_centi }),
            !spec_latency_admits(latency_centi, old(self).latency_threshold_centi_ms)
                ==> final(self).stage == Stage::Rejected,
    {
        if latency_admits(latency_centi, self.latency_threshold_centi_ms) {
            self.stage = Stage::AwaitThroughput { latency_centi };
        } else {
            self.stage = Stage::Rejected;
        }
    }

    /// Applies the throughput gate to the probe's report, given as bytes
    /// received over elapsed wall time; a failed probe reports 0 bytes.
    pub fn on_throughput(&mut self, bytes: u64, elapsed_ms: u64)
        requires
            old(self).wf(),
            old(self).stage matches Stage::AwaitThroughput { .. },
        ensures
            final(self).wf(),
            final(self).addr == old(self).addr,
            final(self).latency_threshold_centi_ms == old(self).latency_threshold_centi_ms,
            final(self).throughput_threshold_centi == old(self).throughput_threshold_centi,
            (final(self).stage is Admitted) <==> spec_speed_centi(bytes, elapsed_ms)
                > old(self).throughput_threshold_centi,
            final(self).stage matches Stage::Admitted { speed_centi } ==> speed_centi
                == spec_speed_centi(bytes, elapsed_ms),
            spec_speed_centi(bytes, elapsed_ms) <= old(self).throughput_threshold_centi
                ==> final(self).stage == Stage::Rejected,
    {
        let s = speed_centi(bytes, elapsed_ms);
        if throughput_admits(s, self.throughput_threshold_centi) {
            self.stage = Stage::Admitted { speed_centi: s };
        } else {
            self.stage = Stage::Rejected;
        }
    }

    /// Whether the driver should go on to the throughput probe.
    pub fn needs_throughput(&self) -> (r: bool)
        ensures
            r == (self.stage is AwaitThroughput),
    {
        match self.stage {
            Stage::AwaitThroughput { .. } => true,
            _ => false,
        }
    }

    /// The record for an admitted candidate, carrying whatever location
    /// code the driver resolved (absent where enrichment is off or where
    /// every lookup failed); any candidate not admitted yields no record.
    pub fn into_outcome(self, location: Option<Vec<u8>>) -> (r: Option<Outcome>)
        requires
            self.wf(),
        ensures
            self.stage matches Stage::Admitted { speed_centi } ==> r matches Some(o) && o.addr
                == self.addr && o.speed_centi == speed_centi && o.location == location,
            !(self.stage is Admitted) ==> r is None,
            r matches Some(o) ==> o.speed_centi > self.throughput_threshold_centi,
    {
        match self.stage {
            Stage::Admitted { speed_centi } => Some(
                Outcome { addr: self.addr, speed_centi, location },
            ),
            _ => None,
        }
    }
}

/// The cheap gate guards the expensive probe: a pipeline can be waiting on
/// the throughput probe only with a recorded latency that is positive and
/// within the threshold, so a candidate with an unmeasured or excessive
/// latency is rejected without any throughput traffic.
pub proof fn lemma_latency_gate_guards_throughput(p: CandidatePipeline)
    requires
        p.wf(),
        p.stage matches Stage::AwaitThroughput { .. },
    ensures
        p.stage matches Stage::AwaitThroughput { latency_centi } ==> 0 < latency_centi
            <= p.latency_threshold_centi_ms,
{
}

/// No outcome is ever created for a candidate whose measured rate stayed
/// at or under the admission threshold: an admitted pipeline's recorded
/// rate exceeds it.
pub proof fn lemma_admission_needs_throughput(p: CandidatePipeline)
    requires
        p.wf(),
        p.stage matches Stage::Admitted { .. },
    ensures
        p.stage matches Stage::Admitted { speed_centi } ==> speed_centi
            > p.throughput_threshold_centi,
{
}

} // verus!
