//! Snapshot aggregator: combines one tick's readings into a `TelemetrySnapshot`.

use vstd::prelude::*;
use crate::disk::{
    disk_info, disk_usage, label_of, mean, measured, percents, saturate, sum, total_gb_sum,
    used_gb_sum, VolumeReading,
};
use crate::gpu::{gpu_or_empty, GpuError};
use crate::network::{network_usage, reported_rate, InterfaceCounters};

verus! {

/// Everything the samplers read during one tick.
pub struct SystemReadings {
    /// CPU utilisation as the provider reports it, possibly above 100.
    pub cpu_percent: u64,
    pub memory_used_bytes: u64,
    pub memory_total_bytes: u64,
    pub volumes: Vec<VolumeReading>,
    /// Interfaces in the provider's enumeration order.
    pub interfaces: Vec<InterfaceCounters>,
    /// Milliseconds between the two reads of the network counters.
    pub interval_ms: u64,
    pub gpu: Result<Vec<u64>, GpuError>,
}

/// One tick's telemetry, ready for display and for the log.
pub struct TelemetrySnapshot {
    pub cpu_percent: u64,
    pub memory_used_bytes: u64,
    pub memory_total_bytes: u64,
    pub disk_percent: u64,
    pub disk_used_gb: u64,
    pub disk_total_gb: u64,
    /// Measurable volumes with their used percentage.
    pub disks: Vec<(String, u64)>,
    /// `(receive, transmit)` bits per second of the first enumerated
    /// interface only; `None` without any interface.
    pub network: Option<(u64, u64)>,
    /// One entry per GPU; empty without a GPU or when it could not be read.
    pub gpu_percent: Vec<u64>,
}

pub open spec fn clamp_percent(p: u64) -> u64 {
    if p <= 100 {
        p
    } else {
        100
    }
}

/// The first interface's rates, if any.
pub open spec fn first_rates(interfaces: Seq<InterfaceCounters>, interval_ms: u64) -> Option<
    (u64, u64),
> {
    if interfaces.len() == 0 {
        None
    } else {
        Some(
            (
                reported_rate(interfaces[0].rx_before, interfaces[0].rx_after, interval_ms),
                reported_rate(interfaces[0].tx_before, interfaces[0].tx_after, interval_ms),
            ),
        )
    }
}

/// The CPU, memory, disk and network figures of `s` are those of `r`.
pub open spec fn host_figures_of(s: TelemetrySnapshot, r: SystemReadings) -> bool {
    &&& s.cpu_percent == clamp_percent(r.cpu_percent)
    &&& s.memory_used_bytes == r.memory_used_bytes
    &&& s.memory_total_bytes == r.memory_total_bytes
    &&& s.disk_percent == mean(percents(r.volumes@))
    &&& s.disk_used_gb == saturate(used_gb_sum(r.volumes@))
    &&& s.disk_total_gb == saturate(total_gb_sum(r.volumes@))
    &&& s.disks@.len() == measured(r.volumes@).len()
    &&& forall|i: int|
        0 <= i < s.disks@.len() ==> {
            &&& (#[trigger] s.disks@[i]).0@ == label_of(measured(r.volumes@)[i].name)
            &&& s.disks@[i].1 == percents(r.volumes@)[i]
        }
    &&& s.network == first_rates(r.interfaces@, r.interval_ms)
}

/// The GPU figures of `s` are those of `r`, none where the sampler failed.
pub open spec fn gpu_figures_of(s: TelemetrySnapshot, r: SystemReadings) -> bool {
    match r.gpu {
        Ok(v) => s.gpu_percent@ == v@,
        Err(_) => s.gpu_percent@.len() == 0,
    }
}

/// `s` is the snapshot of `r`.
pub open spec fn snapshot_of(s: TelemetrySnapshot, r: SystemReadings) -> bool {
    host_figures_of(s, r) && gpu_figures_of(s, r)
}

/// Every percentage a snapshot derives itself lies in 0..=100.
pub open spec fn in_range(s: TelemetrySnapshot) -> bool {
    &&& s.cpu_percent <= 100
    &&& s.disk_percent <= 100
    &&& forall|i: int| 0 <= i < s.disks@.len() ==> (#[trigger] s.disks@[i]).1 <= 100
}

/// Two snapshots agree on every figure but the GPU ones.
pub open spec fn same_host_figures(a: TelemetrySnapshot, b: TelemetrySnapshot) -> bool {
    &&& a.cpu_percent == b.cpu_percent
    &&& a.memory_used_bytes == b.memory_used_bytes
    &&& a.memory_total_bytes == b.memory_total_bytes
    &&& a.disk_percent == b.disk_percent
    &&& a.disk_used_gb == b.disk_used_gb
    &&& a.disk_total_gb == b.disk_total_gb
    &&& a.disks@.len() == b.disks@.len()
    &&& forall|i: int|
        0 <= i < a.disks@.len() ==> (#[trigger] a.disks@[i]).0@ == b.disks@[i].0@ && a.disks@[i].1
            == b.disks@[i].1
    &&& a.network == b.network
}

/// Two snapshots agree on every figure.
pub open spec fn same_figures(a: TelemetrySnapshot, b: TelemetrySnapshot) -> bool {
    same_host_figures(a, b) && a.gpu_percent@ == b.gpu_percent@
}

/// Two tick readings that differ at most in what the GPU sampler returned.
pub open spec fn same_host_readings(r1: SystemReadings, r2: SystemReadings) -> bool {
    &&& r1.cpu_percent == r2.cpu_percent
    &&& r1.memory_used_bytes == r2.memory_used_bytes
    &&& r1.memory_total_bytes == r2.memory_total_bytes
    &&& r1.volumes@ == r2.volumes@
    &&& r1.interfaces@ == r2.interfaces@
    &&& r1.interval_ms == r2.interval_ms
}

proof fn lemma_percents_bounded(vols: Seq<VolumeReading>, i: int)
    requires
        0 <= i < percents(vols).len(),
    ensures
        percents(vols)[i] <= 100,
{
    let m = measured(vols);
    let v = m[i];
    assert(percents(vols)[i] == crate::disk::percent_of(v.total, v.available));
    crate::disk::lemma_mean_excludes_empty_volumes(vols);
    crate::disk::lemma_percent_bounded(v.total, v.available);
}

proof fn lemma_sum_bounded(s: Seq<nat>)
    requires
        forall|i: int| 0 <= i < s.len() ==> #[trigger] s[i] <= 100,
    ensures
        sum(s) <= 100 * s.len(),
    decreases s.len(),
{
    if s.len() > 0 {
        lemma_sum_bounded(s.drop_last());
    }
}

proof fn lemma_mean_bounded(vols: Seq<VolumeReading>)
    ensures
        mean(percents(vols)) <= 100,
{
    let p = percents(vols);
    assert forall|i: int| 0 <= i < p.len() implies #[trigger] p[i] <= 100 by {
        lemma_percents_bounded(vols, i);
    }
    lemma_sum_bounded(p);
    if p.len() > 0 {
        assert(sum(p) / p.len() <= 100) by (nonlinear_arith)
            requires
                sum(p) <= 100 * p.len(),
                p.len() > 0,
        ;
    }
}

/// A snapshot made from a tick's readings has every percentage it derives
/// in 0..=100, whatever the readings were.
pub proof fn lemma_snapshot_in_range(s: TelemetrySnapshot, r: SystemReadings)
    requires
        snapshot_of(s, r),
    ensures
        in_range(s),
{
    lemma_mean_bounded(r.volumes@);
    assert forall|i: int| 0 <= i < s.disks@.len() implies (#[trigger] s.disks@[i]).1 <= 100 by {
        lemma_percents_bounded(r.volumes@, i);
    }
}

/// Aggregating twice over an unchanged system state gives two snapshots
/// with the same figures, each of them in range.
pub proof fn lemma_aggregate_repeatable(a: TelemetrySnapshot, b: TelemetrySnapshot, r: SystemReadings)
    requires
        snapshot_of(a, r),
        snapshot_of(b, r),
    ensures
        same_figures(a, b),
        in_range(a),
        in_range(b),
{
    lemma_snapshot_in_range(a, r);
    lemma_snapshot_in_range(b, r);
    match r.gpu {
        Ok(v) => {},
        Err(_) => {
            assert(a.gpu_percent@ =~= b.gpu_percent@);
        },
    }
}

/// A failed GPU read costs the snapshot its GPU figures and nothing else:
/// every other figure is the one the same tick gives with a working GPU.
pub proof fn lemma_gpu_failure_absorbed(
    with_gpu: TelemetrySnapshot,
    without_gpu: TelemetrySnapshot,
    r1: SystemReadings,
    r2: SystemReadings,
)
    requires
        same_host_readings(r1, r2),
        r2.gpu is Err,
        snapshot_of(with_gpu, r1),
        snapshot_of(without_gpu, r2),
    ensures
        without_gpu.gpu_percent@.len() == 0,
        same_host_figures(with_gpu, without_gpu),
        in_range(without_gpu),
{
    lemma_snapshot_in_range(without_gpu, r2);
}

/// Assembles the snapshot of one tick. CPU utilisation is clamped to 100;
/// the network figures are those of the first interface; a failed GPU read
/// leaves the GPU list empty and every other figure as it is.
pub fn aggregate(readings: SystemReadings) -> (s: TelemetrySnapshot)
    ensures
        snapshot_of(s, readings),
        in_range(s),
{
    let disks = disk_usage(&readings.volumes);
    let (disk_percent, disk_used_gb, disk_total_gb) = disk_info(&readings.volumes);
    let rates = network_usage(&readings.interfaces, readings.interval_ms);
    let network = if rates.len() == 0 {
        None
    } else {
        Some(rates[0])
    };
    let cpu_percent: u64 = if readings.cpu_percent <= 100 {
        readings.cpu_percent
    } else {
        100
    };
    proof {
        assert forall|i: int| 0 <= i < disks@.len() implies (#[trigger] disks@[i]).1 <= 100 by {
            lemma_percents_bounded(readings.volumes@, i);
        }
    }
    let gpu_percent = gpu_or_empty(readings.gpu);
    TelemetrySnapshot {
        cpu_percent,
        memory_used_bytes: readings.memory_used_bytes,
        memory_total_bytes: readings.memory_total_bytes,
        disk_percent,
        disk_used_gb,
        disk_total_gb,
        disks,
        network,
        gpu_percent,
    }
}

} // verus!
