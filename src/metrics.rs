//! Latency metrics: histograms of strategy and execution latencies in
//! microseconds, kept by hdrhistogram.
use vstd::prelude::*;
use hdrhistogram::Histogram;

verus! {

/// Significant decimal digits the histograms keep.
pub const SIGFIG: u8 = 3;

/// A histogram of `u64` samples. The histogram itself is hidden from the
/// verifier; `inner` is open to callers outside it for percentile reports.
#[verifier::external_body]
pub struct LatencyHistogram {
    pub inner: Histogram<u64>,
}

/// How many samples a histogram has counted (its `len`).
pub uninterp spec fn recorded_count(h: LatencyHistogram) -> nat;

/// Whether a histogram grows its range to take any value (its auto-resize
/// setting).
pub uninterp spec fn auto_resizes(h: LatencyHistogram) -> bool;

/// Relies on `hdrhistogram::Histogram::new`: an auto-resizing histogram that
/// has counted nothing. It is built with bounds 1 and 2, which fail only for
/// more than five significant figures (or a `usize` narrower than 32 bits).
#[verifier::external_body]
fn histogram_new(sigfig: u8) -> (r: Option<LatencyHistogram>)
    ensures
        sigfig <= 5 ==> r.is_some(),
        r.is_some() ==> recorded_count(r.unwrap()) == 0 && auto_resizes(r.unwrap()),
{
    Histogram::<u64>::new(sigfig).ok().map(|inner| LatencyHistogram { inner })
}

/// Relies on `hdrhistogram::Histogram::record`: on success the count of
/// samples grows by one, saturating at `u64::MAX`; on error nothing is
/// counted. An auto-resizing histogram grows to fit the value and records it
/// (growth fails only when its bin count does not fit a `usize`, which a
/// 32-bit count always does here), and stays auto-resizing.
#[verifier::external_body]
fn histogram_record(h: &mut LatencyHistogram, value: u64) -> (r: bool)
    ensures
        auto_resizes(*old(h)) ==> r && auto_resizes(*final(h)),
        r ==> recorded_count(*final(h)) == if recorded_count(*old(h)) < u64::MAX {
            recorded_count(*old(h)) + 1
        } else {
            recorded_count(*old(h))
        },
        !r ==> recorded_count(*final(h)) == recorded_count(*old(h)),
{
    h.inner.record(value).is_ok()
}

/// Relies on `hdrhistogram::Histogram::len`: the number of samples counted.
#[verifier::external_body]
fn histogram_len(h: &LatencyHistogram) -> (r: u64)
    ensures
        r == recorded_count(*h),
{
    h.inner.len()
}

/// Strategy latency (receive to signal) and execution latency (signal to
/// confirmation), in microseconds.
pub struct SystemMetrics {
    pub strategy_latency: LatencyHistogram,
    pub execution_latency: LatencyHistogram,
}

impl SystemMetrics {
    /// Both histograms take any latency.
    pub open spec fn wf(&self) -> bool {
        auto_resizes(self.strategy_latency) && auto_resizes(self.execution_latency)
    }

    /// Two empty auto-resizing histograms.
    pub fn new() -> (r: Self)
        ensures
            r.wf(),
            recorded_count(r.strategy_latency) == 0,
            recorded_count(r.execution_latency) == 0,
    {
        let s = histogram_new(SIGFIG).unwrap();
        let e = histogram_new(SIGFIG).unwrap();
        SystemMetrics { strategy_latency: s, execution_latency: e }
    }

    /// Records one strategy latency; it always takes it.
    pub fn record_strategy_latency(&mut self, micros: u64) -> (r: bool)
        requires
            old(self).wf(),
        ensures
            r,
            final(self).wf(),
            final(self).execution_latency == old(self).execution_latency,
            recorded_count(final(self).strategy_latency) == if recorded_count(old(self).strategy_latency)
                < u64::MAX {
                recorded_count(old(self).strategy_latency) + 1
            } else {
                recorded_count(old(self).strategy_latency)
            },
    {
        histogram_record(&mut self.strategy_latency, micros)
    }

    /// Records one execution latency; it always takes it.
    pub fn record_execution_latency(&mut self, micros: u64) -> (r: bool)
        requires
            old(self).wf(),
        ensures
            r,
            final(self).wf(),
            final(self).strategy_latency == old(self).strategy_latency,
            recorded_count(final(self).execution_latency) == if recorded_count(old(self).execution_latency)
                < u64::MAX {
                recorded_count(old(self).execution_latency) + 1
            } else {
                recorded_count(old(self).execution_latency)
            },
    {
        histogram_record(&mut self.execution_latency, micros)
    }

    /// Number of strategy latencies recorded.
    pub fn strategy_samples(&self) -> (r: u64)
        ensures
            r == recorded_count(self.strategy_latency),
    {
        histogram_len(&self.strategy_latency)
    }

    /// Number of execution latencies recorded.
    pub fn execution_samples(&self) -> (r: u64)
        ensures
            r == recorded_count(self.execution_latency),
    {
        histogram_len(&self.execution_latency)
    }
}

} // verus!
