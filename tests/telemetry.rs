use rustytask::{
    aggregate, bit_rate, disk_info, disk_usage, gpu_or_empty, gpu_usage, log_block,
    network_usage, push_decimal, push_kilo, volume_percent, GpuError, gpu_outcome,
    InterfaceCounters, SystemReadings, TelemetrySnapshot, VolumeReading,
};

const GB: u64 = 1073741824;

fn vol(name: &str, total: u64, available: u64) -> VolumeReading {
    VolumeReading { name: Some(name.to_string()), total, available }
}

fn counters(rx_before: u64, rx_after: u64, tx_before: u64, tx_after: u64) -> InterfaceCounters {
    InterfaceCounters { rx_before, rx_after, tx_before, tx_after }
}

fn readings(gpu: Result<Vec<u64>, GpuError>) -> SystemReadings {
    SystemReadings {
        cpu_percent: 37,
        memory_used_bytes: 4_000_000_000,
        memory_total_bytes: 16_000_000_000,
        volumes: vec![vol("sda1", 100, 40), vol("proc", 0, 0), vol("sdb1", 200, 50)],
        interfaces: vec![counters(1000, 2000, 500, 750), counters(0, 10, 0, 10)],
        interval_ms: 1000,
        gpu,
    }
}

#[test]
fn single_volume_percent_and_mean() {
    let vols = vec![vol("sda1", 100, 40)];
    assert_eq!(volume_percent(100, 40), Some(60));
    assert_eq!(disk_usage(&vols), vec![("sda1".to_string(), 60)]);
    assert_eq!(disk_info(&vols).0, 60);
}

#[test]
fn mean_is_unweighted_and_skips_zero_capacity() {
    let vols = vec![vol("a", 100, 40), vol("empty", 0, 0), vol("b", 200 * GB, 50 * GB)];
    assert_eq!(
        disk_usage(&vols),
        vec![("a".to_string(), 60), ("b".to_string(), 75)]
    );
    // (60 + 75) / 2, truncated; a space-weighted mean would be near 75.
    assert_eq!(disk_info(&vols), (67, 150, 200));
}

#[test]
fn empty_volume_list_gives_zero_mean() {
    let vols: Vec<VolumeReading> = Vec::new();
    assert!(disk_usage(&vols).is_empty());
    assert_eq!(disk_info(&vols), (0, 0, 0));
}

#[test]
fn only_zero_capacity_volumes_give_zero_mean() {
    let vols = vec![vol("a", 0, 0), vol("b", 0, 10)];
    assert!(disk_usage(&vols).is_empty());
    assert_eq!(disk_info(&vols), (0, 0, 0));
    assert_eq!(volume_percent(0, 0), None);
}

#[test]
fn gigabytes_are_whole_per_volume() {
    let vols = vec![vol("a", 3 * GB + 5, GB + 7), vol("b", 2 * GB - 1, 0)];
    // a: 3 - 1 used of 3; b: 1 - 0 used of 1.
    assert_eq!(disk_info(&vols), (83, 3, 4));
}

#[test]
fn more_available_than_total_counts_as_unused() {
    assert_eq!(volume_percent(100, 150), Some(0));
    let vols = vec![vol("odd", 10 * GB, 12 * GB)];
    assert_eq!(disk_info(&vols), (0, 0, 10));
}

#[test]
fn percent_is_truncated_and_exact_for_large_volumes() {
    assert_eq!(volume_percent(3, 2), Some(33));
    assert_eq!(volume_percent(u64::MAX, 0), Some(100));
    assert_eq!(volume_percent(u64::MAX, u64::MAX / 2), Some(50));
}

#[test]
fn unnamed_volume_is_listed_as_none() {
    let vols = vec![VolumeReading { name: None, total: 4, available: 1 }];
    assert_eq!(disk_usage(&vols), vec![("none".to_string(), 75)]);
}

#[test]
fn byte_delta_becomes_bits_per_second() {
    assert_eq!(bit_rate(1000, 2000, 1000), 8000);
    assert_eq!(bit_rate(1000, 2000, 10), 800_000);
    assert_eq!(bit_rate(1000, 2000, 3000), 2666);
}

#[test]
fn counter_reset_or_empty_interval_gives_zero() {
    assert_eq!(bit_rate(2000, 1000, 1000), 0);
    assert_eq!(bit_rate(1000, 2000, 0), 0);
    assert_eq!(bit_rate(5, 5, 10), 0);
}

#[test]
fn huge_rate_saturates() {
    assert_eq!(bit_rate(0, u64::MAX, 1), u64::MAX);
    assert_eq!(bit_rate(0, u64::MAX, 8000), u64::MAX);
}

#[test]
fn network_usage_keeps_interface_order() {
    let ifs = vec![counters(1000, 2000, 0, 100), counters(0, 1, 10, 5)];
    assert_eq!(network_usage(&ifs, 10), vec![(800_000, 80_000), (800, 0)]);
    assert!(network_usage(&Vec::new(), 10).is_empty());
}

#[test]
fn gpu_failure_is_absorbed() {
    assert_eq!(gpu_or_empty(Err(GpuError::Unavailable)), Vec::<u64>::new());
    assert_eq!(gpu_or_empty(Err(GpuError::DeviceQuery)), Vec::<u64>::new());
    assert_eq!(gpu_or_empty(Ok(vec![12, 99])), vec![12, 99]);

    let s = aggregate(readings(Err(GpuError::Unavailable)));
    assert!(s.gpu_percent.is_empty());
    assert_eq!(s.cpu_percent, 37);
    assert_eq!(s.disk_percent, 67);
    assert_eq!(s.disks.len(), 2);
    assert_eq!(s.network, Some((8000, 2000)));
}

#[test]
fn aggregate_takes_gpu_figures_and_first_interface() {
    let s = aggregate(readings(Ok(vec![5, 70])));
    assert_eq!(s.gpu_percent, vec![5, 70]);
    assert_eq!(s.network, Some((8000, 2000)));
    assert_eq!(s.memory_used_bytes, 4_000_000_000);
    assert_eq!(s.memory_total_bytes, 16_000_000_000);
    assert_eq!(s.disk_used_gb, 0);
    assert_eq!(s.disk_total_gb, 0);
}

#[test]
fn aggregate_clamps_cpu_and_handles_no_interface() {
    let mut r = readings(Ok(Vec::new()));
    r.cpu_percent = 130;
    r.interfaces = Vec::new();
    let s = aggregate(r);
    assert_eq!(s.cpu_percent, 100);
    assert_eq!(s.network, None);
}

fn same(a: &TelemetrySnapshot, b: &TelemetrySnapshot) -> bool {
    a.cpu_percent == b.cpu_percent
        && a.memory_used_bytes == b.memory_used_bytes
        && a.memory_total_bytes == b.memory_total_bytes
        && a.disk_percent == b.disk_percent
        && a.disk_used_gb == b.disk_used_gb
        && a.disk_total_gb == b.disk_total_gb
        && a.disks == b.disks
        && a.network == b.network
        && a.gpu_percent == b.gpu_percent
}

#[test]
fn aggregating_twice_gives_valid_equal_snapshots() {
    let a = aggregate(readings(Ok(vec![40])));
    let b = aggregate(readings(Ok(vec![40])));
    assert!(same(&a, &b));
    for s in [&a, &b] {
        assert!(s.cpu_percent <= 100);
        assert!(s.disk_percent <= 100);
        assert!(s.disks.iter().all(|(_, p)| *p <= 100));
    }
}

#[test]
fn decimal_and_kilobit_text() {
    let mut out = String::from("n=");
    push_decimal(&mut out, 0);
    assert_eq!(out, "n=0");
    let mut out = String::new();
    push_decimal(&mut out, 1234567890);
    assert_eq!(out, "1234567890");
    let mut out = String::new();
    push_decimal(&mut out, u64::MAX);
    assert_eq!(out, u64::MAX.to_string());
    for (bits, text) in [(0u64, "0.00"), (5, "0.01"), (1234, "1.23"), (1235, "1.24"), (8000, "8.00"), (999_995, "1000.00")] {
        let mut out = String::new();
        push_kilo(&mut out, bits);
        assert_eq!(out, text);
    }
}

#[test]
fn log_block_format() {
    let s = aggregate(readings(Ok(vec![5, 70])));
    let block = log_block("2024-05-01 12:00:00", &s);
    assert_eq!(
        block,
        "[2024-05-01 12:00:00]\n\
         CPU usage: 37%\n\
         GPU1 usage: 5%\n\
         GPU2 usage: 70%\n\
         Disk sda1 usage: 60%\n\
         Disk sdb1 usage: 75%\n\
         Network receive: 8.00 Kbps, Network transmit: 2.00 Kbps\n"
    );
}

#[test]
fn log_block_without_gpu_disks_or_network() {
    let r = SystemReadings {
        cpu_percent: 3,
        memory_used_bytes: 0,
        memory_total_bytes: 0,
        volumes: Vec::new(),
        interfaces: Vec::new(),
        interval_ms: 10,
        gpu: Err(GpuError::Unavailable),
    };
    let block = log_block("t", &aggregate(r));
    assert_eq!(block, "[t]\nCPU usage: 3%\n");
}

#[test]
fn appended_blocks_stay_in_order() {
    let mut log = String::new();
    let mut blocks = Vec::new();
    for (i, cpu) in [10u64, 20, 30].iter().enumerate() {
        let mut r = readings(Err(GpuError::DeviceQuery));
        r.cpu_percent = *cpu;
        let block = log_block(&format!("tick {}", i), &aggregate(r));
        let before = log.clone();
        log.push_str(&block);
        assert!(log.starts_with(&before));
        blocks.push(block);
    }
    assert_eq!(log, blocks.concat());
    assert_eq!(log.lines().filter(|l| l.starts_with('[')).count(), 3);
    assert!(log.contains("[tick 1]\nCPU usage: 20%\n"));
}

#[test]
fn gpu_outcome_without_count_is_unavailable() {
    assert_eq!(gpu_outcome(None, Vec::new()), Err(GpuError::Unavailable));
    assert_eq!(gpu_outcome(None, vec![Some(3)]), Err(GpuError::Unavailable));
}

#[test]
fn gpu_outcome_with_failed_device_is_device_query() {
    assert_eq!(gpu_outcome(Some(3), vec![Some(10), None]), Err(GpuError::DeviceQuery));
    assert_eq!(gpu_outcome(Some(1), vec![None]), Err(GpuError::DeviceQuery));
}

#[test]
fn gpu_outcome_lists_devices_in_order() {
    assert_eq!(gpu_outcome(Some(3), vec![Some(10), Some(0), Some(100)]), Ok(vec![10, 0, 100]));
    assert_eq!(gpu_outcome(Some(0), Vec::new()), Ok(Vec::new()));
}

#[test]
fn inserted_empty_volumes_change_nothing() {
    let vols = vec![vol("a", 100, 40), vol("b", 200 * GB, 50 * GB)];
    let with_empty = vec![
        vol("e1", 0, 0),
        vol("a", 100, 40),
        vol("e2", 0, 5 * GB),
        vol("b", 200 * GB, 50 * GB),
        vol("e3", 0, 0),
    ];
    assert_eq!(disk_info(&with_empty), disk_info(&vols));
    assert_eq!(disk_usage(&with_empty), disk_usage(&vols));
}

#[test]
fn doubling_the_interval_halves_the_rate() {
    assert_eq!(bit_rate(1000, 2000, 10), 800_000);
    assert_eq!(bit_rate(1000, 2000, 20), 400_000);
    assert_eq!(bit_rate(1000, 1003, 7), 3428);
    assert_eq!(bit_rate(1000, 1003, 14), 1714);
}

#[test]
fn gpu_sampler_reports_an_error_value_not_a_panic() {
    match gpu_usage() {
        Ok(v) => assert!(v.iter().all(|p| *p <= u32::MAX as u64)),
        Err(e) => assert!(e == GpuError::Unavailable || e == GpuError::DeviceQuery),
    }
}
