//! GPU sampler: per-device utilisation through NVML. A host without a GPU
//! or driver is an ordinary configuration, reported as an error value that
//! the aggregator absorbs.

use vstd::prelude::*;
use nvml_wrapper::error::NvmlError;
use nvml_wrapper::{Device, Nvml};

verus! {

/// Why no GPU figures could be read.
#[derive(Clone, Copy, Debug, PartialEq, Eq, Structural)]
pub enum GpuError {
    /// No management interface: the library, the driver or the devices are missing.
    Unavailable,
    /// A device is present but its utilisation could not be read.
    DeviceQuery,
}

#[verifier::external_type_specification]
#[verifier::external_body]
pub struct ExNvml(Nvml);

#[verifier::external_type_specification]
#[verifier::external_body]
pub struct ExNvmlError(NvmlError);

#[verifier::external_type_specification]
#[verifier::external_body]
pub struct ExDevice<'nvml>(Device<'nvml>);

/// Relies on `Nvml::init`: loads the NVML library and initialises it; fails
/// when the library or the driver is missing.
pub assume_specification[ Nvml::init ]() -> Result<Nvml, NvmlError>;

/// Relies on `Nvml::device_count`: the number of devices NVML sees.
pub assume_specification[ Nvml::device_count ](nvml: &Nvml) -> Result<u32, NvmlError>;

/// Relies on `Nvml::device_by_index`: the handle of the device at `index`.
pub assume_specification<'nvml>[ Nvml::device_by_index ](
    nvml: &'nvml Nvml,
    index: u32,
) -> Result<Device<'nvml>, NvmlError>;

/// Relies on `Device::utilization_rates`: its `gpu` field is documented as
/// the percent of the last sample period during which a kernel ran on the
/// device.
#[verifier::external_body]
fn gpu_utilization(device: &Device) -> (r: Result<u32, NvmlError>)
    ensures
        r is Ok ==> r->Ok_0 <= 100,
{
    device.utilization_rates().map(|u| u.gpu)
}

/// Whether every device read succeeded.
pub open spec fn all_read(reads: Seq<Option<u32>>) -> bool {
    forall|i: int| 0 <= i < reads.len() ==> #[trigger] reads[i] is Some
}

/// `r` is the sampler's answer for a device count (`None`: NVML could not
/// be initialised or could not count) and the device reads in index order
/// (`None`: that device could not be fetched or read).
pub open spec fn gpu_outcome_of(count: Option<u32>, reads: Seq<Option<u32>>, r: Result<Vec<u64>, GpuError>) -> bool {
    if count is None {
        r == Err::<Vec<u64>, GpuError>(GpuError::Unavailable)
    } else if !all_read(reads) {
        r == Err::<Vec<u64>, GpuError>(GpuError::DeviceQuery)
    } else {
        &&& r is Ok
        &&& r->Ok_0@.len() == reads.len()
        &&& forall|i: int| 0 <= i < reads.len() ==> #[trigger] r->Ok_0@[i] == reads[i]->Some_0 as u64
    }
}

/// Decides the sampler's answer from what NVML reported: no count means no
/// usable interface, one failed device read fails the whole sample, and
/// otherwise each device's utilisation is listed in index order.
pub fn gpu_outcome(count: Option<u32>, reads: Vec<Option<u32>>) -> (r: Result<Vec<u64>, GpuError>)
    ensures
        gpu_outcome_of(count, reads@, r),
{
    match count {
        None => return Err(GpuError::Unavailable),
        Some(_) => {},
    }
    let mut result: Vec<u64> = Vec::new();
    let mut i: usize = 0;
    while i < reads.len()
        invariant
            count is Some,
            i <= reads@.len(),
            result@.len() == i,
            forall|j: int| 0 <= j < i ==> (#[trigger] reads@[j]) is Some,
            forall|j: int| 0 <= j < i ==> #[trigger] result@[j] == reads@[j]->Some_0 as u64,
        decreases reads@.len() - i,
    {
        match reads[i] {
            Some(u) => result.push(u as u64),
            None => {
                assert(reads@[i as int] is None);
                return Err(GpuError::DeviceQuery);
            },
        }
        i = i + 1;
    }
    Ok(result)
}

/// Utilisation percentage of every GPU, in NVML index order. Fails with
/// `Unavailable` when NVML cannot be initialised or cannot count devices,
/// and with `DeviceQuery`, and no partial list, when one device cannot be
/// fetched or read. What NVML reports depends on the hardware, so the
/// answer is stated for the count and reads it gave: one read per device
/// in index order, stopping at the first failure.
pub fn gpu_usage() -> (r: Result<Vec<u64>, GpuError>)
    ensures
        exists|count: Option<u32>, reads: Seq<Option<u32>>|
            {
                &&& #[trigger] gpu_outcome_of(count, reads, r)
                &&& count is Some ==> reads.len() <= count->Some_0
                &&& count is Some && all_read(reads) ==> reads.len() == count->Some_0
                &&& forall|i: int| 0 <= i < reads.len() && (#[trigger] reads[i]) is Some ==> reads[i]->Some_0 <= 100
            },
        r is Ok ==> forall|i: int| 0 <= i < r->Ok_0@.len() ==> #[trigger] r->Ok_0@[i] <= 100,
{
    let nvml = match Nvml::init() {
        Ok(n) => n,
        Err(_) => {
            return gpu_outcome(None, Vec::new());
        },
    };
    let count = match nvml.device_count() {
        Ok(c) => c,
        Err(_) => {
            return gpu_outcome(None, Vec::new());
        },
    };
    let mut reads: Vec<Option<u32>> = Vec::new();
    let mut failed = false;
    let mut i: u32 = 0;
    while i < count && !failed
        invariant
            i <= count,
            reads@.len() == i,
            !failed ==> all_read(reads@),
            failed ==> i > 0 && reads@[i - 1] is None,
            forall|j: int| 0 <= j < reads@.len() && (#[trigger] reads@[j]) is Some ==> reads@[j]->Some_0 <= 100,
        decreases count - i,
    {
        let read = match nvml.device_by_index(i) {
            Ok(device) => match gpu_utilization(&device) {
                Ok(u) => Some(u),
                Err(_) => None,
            },
            Err(_) => None,
        };
        failed = read.is_none();
        reads.push(read);
        i = i + 1;
    }
    let ghost seen = reads@;
    let r = gpu_outcome(Some(count), reads);
    assert(gpu_outcome_of(Some(count), seen, r));
    r
}

/// The GPU figures of a sample, or none where the sampler failed: a failed
/// GPU read degrades the snapshot and never fails it.
pub fn gpu_or_empty(sample: Result<Vec<u64>, GpuError>) -> (r: Vec<u64>)
    ensures
        sample is Ok ==> r@ == sample->Ok_0@,
        sample is Err ==> r@.len() == 0,
{
    match sample {
        Ok(v) => v,
        Err(_) => Vec::new(),
    }
}

} // verus!
