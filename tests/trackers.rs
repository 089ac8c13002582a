use sysmon::{
    gauge_share, usage_percent, CPUTracker, ConfigError, DiskReading, MemReading, MemTracker,
    Sample, StorageTracker, FULL_PERCENT,
};

fn s(elapsed: u64, value: u64) -> Sample {
    Sample { elapsed, value }
}

fn disk(name: &str, total: u64, available: u64) -> DiskReading {
    DiskReading { name: name.to_string(), total_space: total, available_space: available }
}

#[test]
fn usage_percent_values() {
    assert_eq!(usage_percent(0, 0), 0);
    assert_eq!(usage_percent(5, 0), 0);
    assert_eq!(usage_percent(0, 100), 0);
    assert_eq!(usage_percent(50, 100), 5000);
    assert_eq!(usage_percent(1, 3), 3333);
    assert_eq!(usage_percent(100, 100), FULL_PERCENT);
    assert_eq!(usage_percent(200, 100), FULL_PERCENT);
    assert_eq!(usage_percent(u64::MAX, u64::MAX), FULL_PERCENT);
    assert_eq!(usage_percent(u64::MAX / 2, u64::MAX), 4999);
}

#[test]
fn cpu_tracker_keeps_last_three() {
    let mut t = CPUTracker::new(3).unwrap();
    t.chart(0, Some(1000));
    t.chart(1, Some(2000));
    t.chart(2, Some(3000));
    let c = t.chart(3, Some(4000));
    assert_eq!(t.history(), vec![s(1, 2000), s(2, 3000), s(3, 4000)]);
    assert_eq!(c.points, vec![s(1, 2000), s(2, 3000), s(3, 4000)]);
    assert_eq!(c.current, 4000);
    assert_eq!(c.axis_to, 3);
    assert_eq!(c.axis_from, 0);
}

#[test]
fn cpu_tracker_zero_capacity_is_refused() {
    assert!(matches!(CPUTracker::new(0), Err(ConfigError::ZeroCapacity)));
}

#[test]
fn cpu_reading_is_clamped_and_degraded() {
    let mut t = CPUTracker::new(5).unwrap();
    let a = t.chart(0, Some(12345));
    assert_eq!(a.current, FULL_PERCENT);
    assert_eq!(a.axis_from, -5);
    let b = t.chart(1, None);
    assert_eq!(b.current, 0);
    assert_eq!(t.history(), vec![s(0, FULL_PERCENT), s(1, 0)]);
}

#[test]
fn cpu_time_never_goes_back() {
    let mut t = CPUTracker::new(5).unwrap();
    t.chart(10, Some(100));
    let c = t.chart(4, Some(200));
    assert_eq!(c.axis_to, 10);
    assert_eq!(t.history(), vec![s(10, 100), s(10, 200)]);
}

fn mem(used_memory: u64, total_memory: u64, used_swap: u64, total_swap: u64) -> MemReading {
    MemReading { used_memory, total_memory, used_swap, total_swap }
}

#[test]
fn memory_series_stay_paired() {
    let mut t = MemTracker::new(2).unwrap();
    for i in 0..5u64 {
        let c = t.chart(i, mem(i * 10, 100, 3, 4));
        assert_eq!(c.ram_points.len(), c.swap_points.len());
        assert_eq!(t.ram_history().len(), t.swap_history().len());
    }
    assert_eq!(t.ram_history(), vec![s(3, 3000), s(4, 4000)]);
    assert_eq!(t.swap_history(), vec![s(3, 7500), s(4, 7500)]);
    assert_eq!(t.capacity(), 2);
}

#[test]
fn memory_without_swap_reads_zero() {
    let mut t = MemTracker::new(4).unwrap();
    let c = t.chart(7, mem(2, 8, 0, 0));
    assert_eq!(c.ram, 2500);
    assert_eq!(c.swap, 0);
    assert_eq!(c.axis_to, 7);
    assert_eq!(c.axis_from, 3);
    assert_eq!(c.swap_points, vec![s(7, 0)]);
}

#[test]
fn memory_zero_capacity_is_refused() {
    assert!(matches!(MemTracker::new(0), Err(ConfigError::ZeroCapacity)));
}

#[test]
fn disk_under_two_mounts_gives_one_gauge() {
    let mut t = StorageTracker::new();
    assert!(t.current().is_empty());
    let listed = vec![
        disk("/dev/sda1", 1000, 250),
        disk("/dev/sdb1", 400, 400),
        disk("/dev/sda1", 1000, 999),
    ];
    for _ in 0..2 {
        t.gauges(&listed);
        let g = t.current();
        assert_eq!(g.len(), 2);
        assert_eq!(g[0].name, "/dev/sda1");
        assert_eq!(g[0].used, 750);
        assert_eq!(g[0].total, 1000);
        assert_eq!(g[0].percent, 7500);
        assert_eq!(g[1].name, "/dev/sdb1");
        assert_eq!(g[1].used, 0);
        assert_eq!(g[1].percent, 0);
    }
}

#[test]
fn disk_gauges_are_replaced_each_tick() {
    let mut t = StorageTracker::new();
    t.gauges(&vec![disk("a", 10, 5), disk("b", 10, 5)]);
    t.gauges(&vec![disk("c", 0, 0)]);
    let g = t.current();
    assert_eq!(g.len(), 1);
    assert_eq!(g[0].name, "c");
    assert_eq!(g[0].percent, 0);
    t.gauges(&Vec::new());
    assert!(t.current().is_empty());
}

#[test]
fn unnamed_disks_collapse_into_one() {
    let mut t = StorageTracker::new();
    t.gauges(&vec![disk("", 10, 20), disk("", 10, 0)]);
    let g = t.current();
    assert_eq!(g.len(), 1);
    assert_eq!(g[0].used, 0);
    assert_eq!(g[0].total, 10);
}

#[test]
fn gauge_share_values() {
    assert_eq!(gauge_share(0), 0);
    assert_eq!(gauge_share(1), 100);
    assert_eq!(gauge_share(3), 33);
    assert_eq!(gauge_share(200), 0);
}
