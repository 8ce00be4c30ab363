//! Disk sampler: per-volume used percentage and the aggregate over all volumes.

use vstd::prelude::*;

verus! {

/// Bytes in one gigabyte as the aggregate counts them (2^30).
pub const BYTES_PER_GB: u64 = 1073741824;

/// One mounted volume as the provider reports it.
pub struct VolumeReading {
    /// The volume's name, or `None` where it is not valid UTF-8.
    pub name: Option<String>,
    pub total: u64,
    pub available: u64,
}

/// Bytes in use on a volume; a provider reporting more available than total
/// space counts as nothing used.
pub open spec fn used_bytes(total: u64, available: u64) -> nat {
    if available <= total {
        (total - available) as nat
    } else {
        0
    }
}

/// Used percentage of a volume of non-zero capacity, truncated.
pub open spec fn percent_of(total: u64, available: u64) -> nat
    recommends
        total > 0,
{
    used_bytes(total, available) * 100 / (total as nat)
}

/// The label a volume is listed under.
pub open spec fn label_of(name: Option<String>) -> Seq<char> {
    match name {
        Some(s) => s@,
        None => "none"@,
    }
}

/// The volumes that can be measured: those of non-zero capacity.
pub open spec fn measured(vols: Seq<VolumeReading>) -> Seq<VolumeReading>
    decreases vols.len(),
{
    if vols.len() == 0 {
        seq![]
    } else {
        let rest = measured(vols.drop_last());
        if vols.last().total > 0 {
            rest.push(vols.last())
        } else {
            rest
        }
    }
}

/// Per-volume used percentages of the measurable volumes, in order.
pub open spec fn percents(vols: Seq<VolumeReading>) -> Seq<nat> {
    measured(vols).map_values(|v: VolumeReading| percent_of(v.total, v.available))
}

pub open spec fn sum(s: Seq<nat>) -> nat
    decreases s.len(),
{
    if s.len() == 0 {
        0
    } else {
        sum(s.drop_last()) + s.last()
    }
}

/// Unweighted arithmetic mean, truncated; zero for an empty sequence.
pub open spec fn mean(s: Seq<nat>) -> nat {
    if s.len() == 0 {
        0
    } else {
        sum(s) / s.len()
    }
}

pub open spec fn whole_gb(bytes: u64) -> nat {
    (bytes / BYTES_PER_GB) as nat
}

/// Whole gigabytes in use on one volume: whole total minus whole available.
pub open spec fn used_gb(v: VolumeReading) -> nat {
    if whole_gb(v.available) <= whole_gb(v.total) {
        (whole_gb(v.total) - whole_gb(v.available)) as nat
    } else {
        0
    }
}

pub open spec fn used_gb_sum(vols: Seq<VolumeReading>) -> nat
    decreases vols.len(),
{
    if vols.len() == 0 {
        0
    } else {
        used_gb_sum(vols.drop_last()) + used_gb(vols.last())
    }
}

pub open spec fn total_gb_sum(vols: Seq<VolumeReading>) -> nat
    decreases vols.len(),
{
    if vols.len() == 0 {
        0
    } else {
        total_gb_sum(vols.drop_last()) + whole_gb(vols.last().total)
    }
}

/// A count held in a `u64`, saturating at its largest value.
pub open spec fn saturate(n: nat) -> u64 {
    if n <= u64::MAX {
        n as u64
    } else {
        u64::MAX
    }
}

/// Used percentage of one volume; `None` for a volume of zero capacity.
pub fn volume_percent(total: u64, available: u64) -> (r: Option<u64>)
    ensures
        total == 0 <==> r is None,
        total > 0 ==> r == Some(percent_of(total, available) as u64),
        total > 0 ==> percent_of(total, available) <= 100,
{
    if total == 0 {
        return None;
    }
    let used: u64 = if available <= total {
        total - available
    } else {
        0
    };
    proof {
        lemma_percent_bounded(total, available);
    }
    let p: u128 = (used as u128) * 100 / (total as u128);
    Some(p as u64)
}

pub proof fn lemma_percent_bounded(total: u64, available: u64)
    requires
        total > 0,
    ensures
        percent_of(total, available) <= 100,
{
    let used = used_bytes(total, available);
    assert(used * 100 <= total as nat * 100) by (nonlinear_arith)
        requires
            used <= total,
    ;
    assert(used * 100 / (total as nat) <= 100) by (nonlinear_arith)
        requires
            used * 100 <= total as nat * 100,
            total > 0,
    ;
}

proof fn lemma_percents_step(vols: Seq<VolumeReading>, i: int)
    requires
        0 <= i < vols.len(),
    ensures
        percents(vols.take(i + 1)) == (if vols[i].total > 0 {
            percents(vols.take(i)).push(percent_of(vols[i].total, vols[i].available))
        } else {
            percents(vols.take(i))
        }),
{
    assert(vols.take(i + 1).drop_last() =~= vols.take(i));
    if vols[i].total > 0 {
        assert(percents(vols.take(i + 1)) =~= percents(vols.take(i)).push(
            percent_of(vols[i].total, vols[i].available),
        ));
    }
}

/// Whether a volume can be measured: it has non-zero capacity.
pub open spec fn has_capacity() -> spec_fn(VolumeReading) -> bool {
    |v: VolumeReading| v.total > 0
}

/// The disk mean is the unweighted mean of the per-volume percentages of
/// exactly the volumes of non-zero capacity: those are the input filtered
/// by `total > 0`, in order, and each contributes its own percentage once.
pub proof fn lemma_mean_excludes_empty_volumes(vols: Seq<VolumeReading>)
    ensures
        measured(vols) == vols.filter(has_capacity()),
        forall|i: int| 0 <= i < measured(vols).len() ==> #[trigger] measured(vols)[i].total > 0,
        percents(vols).len() == measured(vols).len(),
        forall|i: int|
            0 <= i < percents(vols).len() ==> #[trigger] percents(vols)[i] == percent_of(
                measured(vols)[i].total,
                measured(vols)[i].available,
            ),
        mean(percents(vols)) == if measured(vols).len() == 0 {
            0
        } else {
            sum(percents(vols)) / measured(vols).len()
        },
    decreases vols.len(),
{
    reveal(Seq::filter);
    if vols.len() > 0 {
        lemma_mean_excludes_empty_volumes(vols.drop_last());
    }
    let m = measured(vols);
    assert forall|i: int| 0 <= i < m.len() implies #[trigger] m[i].total > 0 by {
        if vols.len() > 0 && i < measured(vols.drop_last()).len() {
        }
    }
}

proof fn lemma_sums_over_measured(vols: Seq<VolumeReading>)
    ensures
        used_gb_sum(measured(vols)) == used_gb_sum(vols),
        total_gb_sum(measured(vols)) == total_gb_sum(vols),
    decreases vols.len(),
{
    if vols.len() > 0 {
        lemma_sums_over_measured(vols.drop_last());
        let rest = measured(vols.drop_last());
        if vols.last().total > 0 {
            assert(rest.push(vols.last()).drop_last() =~= rest);
        }
    }
}

/// Volumes of zero capacity change none of the aggregate figures: two
/// volume lists with the same volumes of non-zero capacity, in the same
/// order, give the same mean and the same gigabyte sums, whatever volumes
/// of zero capacity either holds and wherever they stand.
pub proof fn lemma_empty_volumes_change_nothing(vols: Seq<VolumeReading>, others: Seq<VolumeReading>)
    requires
        vols.filter(has_capacity()) == others.filter(has_capacity()),
    ensures
        mean(percents(vols)) == mean(percents(others)),
        used_gb_sum(vols) == used_gb_sum(others),
        total_gb_sum(vols) == total_gb_sum(others),
{
    lemma_mean_excludes_empty_volumes(vols);
    lemma_mean_excludes_empty_volumes(others);
    lemma_sums_over_measured(vols);
    lemma_sums_over_measured(others);
}

/// Lists each measurable volume with its used percentage, in enumeration
/// order; volumes of zero capacity are left out.
pub fn disk_usage(volumes: &Vec<VolumeReading>) -> (r: Vec<(String, u64)>)
    ensures
        r@.len() == measured(volumes@).len(),
        forall|i: int|
            0 <= i < r@.len() ==> {
                &&& (#[trigger] r@[i]).0@ == label_of(measured(volumes@)[i].name)
                &&& r@[i].1 == percents(volumes@)[i]
            },
{
    let mut rows: Vec<(String, u64)> = Vec::new();
    let mut i: usize = 0;
    while i < volumes.len()
        invariant
            i <= volumes@.len(),
            rows@.len() == measured(volumes@.take(i as int)).len(),
            forall|j: int|
                0 <= j < rows@.len() ==> {
                    &&& (#[trigger] rows@[j]).0@ == label_of(
                        measured(volumes@.take(i as int))[j].name,
                    )
                    &&& rows@[j].1 == percents(volumes@.take(i as int))[j]
                },
        decreases volumes@.len() - i,
    {
        let v = &volumes[i];
        proof {
            lemma_percents_step(volumes@, i as int);
            assert(volumes@.take(i as int + 1).drop_last() =~= volumes@.take(i as int));
        }
        match volume_percent(v.total, v.available) {
            Some(p) => {
                let name = match &v.name {
                    Some(n) => n.clone(),
                    None => String::from_str("none"),
                };
                rows.push((name, p));
            },
            None => {},
        }
        i = i + 1;
    }
    assert(volumes@.take(volumes@.len() as int) =~= volumes@);
    rows
}

proof fn lemma_sum_step(s: Seq<nat>, x: nat)
    ensures
        sum(s.push(x)) == sum(s) + x,
{
    assert(s.push(x).drop_last() =~= s);
}

proof fn lemma_gb_sums_step(vols: Seq<VolumeReading>, i: int)
    requires
        0 <= i < vols.len(),
    ensures
        used_gb_sum(vols.take(i + 1)) == used_gb_sum(vols.take(i)) + used_gb(vols[i]),
        total_gb_sum(vols.take(i + 1)) == total_gb_sum(vols.take(i)) + whole_gb(vols[i].total),
{
    assert(vols.take(i + 1).drop_last() =~= vols.take(i));
}

/// Aggregates the volume list into `(mean_percent, used_gb, total_gb)`.
/// The mean is the unweighted mean of the per-volume percentages of the
/// measurable volumes, and zero where there is none; the gigabyte figures
/// are sums of whole gigabytes per volume.
pub fn disk_info(volumes: &Vec<VolumeReading>) -> (r: (u64, u64, u64))
    ensures
        r.0 == mean(percents(volumes@)),
        r.0 <= 100,
        r.1 == saturate(used_gb_sum(volumes@)),
        r.2 == saturate(total_gb_sum(volumes@)),
{
    let mut percent_sum: u128 = 0;
    let mut count: u128 = 0;
    let mut used: u128 = 0;
    let mut space: u128 = 0;
    let mut i: usize = 0;
    while i < volumes.len()
        invariant
            i <= volumes@.len(),
            count == percents(volumes@.take(i as int)).len(),
            count <= i,
            percent_sum == sum(percents(volumes@.take(i as int))),
            percent_sum <= 100 * count,
            used == used_gb_sum(volumes@.take(i as int)),
            space == total_gb_sum(volumes@.take(i as int)),
            used <= 17179869184 * i,
            space <= 17179869184 * i,
            i <= usize::MAX,
        decreases volumes@.len() - i,
    {
        let v = &volumes[i];
        proof {
            lemma_percents_step(volumes@, i as int);
            lemma_gb_sums_step(volumes@, i as int);
        }
        match volume_percent(v.total, v.available) {
            Some(p) => {
                proof {
                    lemma_sum_step(percents(volumes@.take(i as int)), p as nat);
                }
                percent_sum = percent_sum + p as u128;
                count = count + 1;
            },
            None => {},
        }
        let total_gb: u64 = v.total / BYTES_PER_GB;
        let available_gb: u64 = v.available / BYTES_PER_GB;
        if available_gb <= total_gb {
            used = used + (total_gb - available_gb) as u128;
        }
        space = space + total_gb as u128;
        i = i + 1;
    }
    assert(volumes@.take(volumes@.len() as int) =~= volumes@);
    let mean_percent: u64 = if count == 0 {
        0
    } else {
        proof {
            assert(percent_sum / count <= 100) by (nonlinear_arith)
                requires
                    percent_sum <= 100 * count,
                    count > 0,
            ;
        }
        (percent_sum / count) as u64
    };
    let used_gb: u64 = if used <= u64::MAX as u128 {
        used as u64
    } else {
        u64::MAX
    };
    let total_gb: u64 = if space <= u64::MAX as u128 {
        space as u64
    } else {
        u64::MAX
    };
    (mean_percent, used_gb, total_gb)
}

} // verus!
