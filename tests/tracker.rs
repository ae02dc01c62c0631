use rust_profiler::{AllocationInfo, MemoryStats, MemoryTracker};

fn record(size: usize, timestamp: i64) -> AllocationInfo {
    AllocationInfo { size, timestamp, stack_trace: vec!["main".to_string()], thread_id: 1 }
}

fn sample(current_usage: usize) -> MemoryStats {
    let mut s = MemoryStats::zeroed();
    s.current_usage = current_usage;
    s.total_allocated = current_usage;
    s
}

#[test]
fn new_tracker_is_empty() {
    let t = MemoryTracker::new();
    let s = t.get_current_stats();
    assert_eq!(s.current_usage, 0);
    assert_eq!(s.peak_usage, 0);
    assert_eq!(s.allocation_count, 0);
    assert!(s.active_allocations.is_empty());
}

#[test]
fn peak_follows_successive_samples() {
    let mut t = MemoryTracker::new();
    t.update_stats(sample(1000));
    assert_eq!(t.get_current_stats().peak_usage, 1000);
    t.update_stats(sample(500));
    assert_eq!(t.get_current_stats().peak_usage, 1000);
    assert_eq!(t.get_current_stats().current_usage, 500);
    t.update_stats(sample(1500));
    let s = t.get_final_stats();
    assert_eq!(s.peak_usage, 1500);
    assert_eq!(s.current_usage, 1500);
}

#[test]
fn sample_peak_field_is_replaced_by_tracked_peak() {
    let mut t = MemoryTracker::new();
    let mut s = sample(300);
    s.peak_usage = 9999;
    s.total_freed = 7;
    t.update_stats(s);
    assert_eq!(t.get_current_stats().peak_usage, 300);
    assert_eq!(t.get_current_stats().total_freed, 7);
}

#[test]
fn add_and_remove_keep_accounting() {
    let mut t = MemoryTracker::new();
    t.add_allocation(0x10, record(100, 0));
    t.add_allocation(0x20, record(250, 0));
    t.add_allocation(0x30, record(50, 0));
    let removed = t.remove_allocation(0x20).expect("present");
    assert_eq!(removed.size, 250);
    let s = t.get_current_stats();
    assert_eq!(s.current_usage, 150);
    assert_eq!(s.total_allocated, 400);
    assert_eq!(s.total_freed, 250);
    assert_eq!(s.allocation_count, 3);
    assert_eq!(s.free_count, 1);
    assert_eq!(s.active_allocations.len() as u64, s.allocation_count - s.free_count);
    assert_eq!(s.peak_usage, 400);
}

#[test]
fn remove_absent_address_changes_nothing() {
    let mut t = MemoryTracker::new();
    t.add_allocation(0x10, record(100, 0));
    assert!(t.remove_allocation(0x99).is_none());
    let s = t.get_current_stats();
    assert_eq!(s.current_usage, 100);
    assert_eq!(s.total_freed, 0);
    assert_eq!(s.free_count, 0);
    assert_eq!(s.allocation_count, 1);
    assert_eq!(s.active_allocations.len(), 1);
}

#[test]
fn remove_clamps_current_usage_at_zero() {
    let mut t = MemoryTracker::new();
    t.add_allocation(0x10, record(100, 0));
    let mut s = MemoryStats::zeroed();
    s.current_usage = 30;
    s.active_allocations.push((0x10, record(100, 0)));
    t.update_stats(s);
    assert!(t.remove_allocation(0x10).is_some());
    assert_eq!(t.get_current_stats().current_usage, 0);
}

#[test]
fn duplicate_address_replaces_entry() {
    let mut t = MemoryTracker::new();
    t.add_allocation(0x10, record(100, 0));
    t.add_allocation(0x10, record(40, 0));
    let s = t.get_current_stats();
    assert_eq!(s.active_allocations.len(), 1);
    assert_eq!(t.get_allocation_info(0x10).unwrap().size, 40);
    assert_eq!(s.allocation_count, 2);
}

#[test]
fn queries_by_size_and_age() {
    let mut t = MemoryTracker::new();
    t.add_allocation(1, record(10, 100));
    t.add_allocation(2, record(500, 150));
    t.add_allocation(3, record(64, 190));
    let big = t.get_allocations_by_size(64);
    let addrs: Vec<usize> = big.iter().map(|e| e.0).collect();
    assert_eq!(addrs, vec![2, 3]);
    let old = t.get_allocations_by_age_at(50, 200);
    let addrs: Vec<usize> = old.iter().map(|e| e.0).collect();
    assert_eq!(addrs, vec![1, 2]);
    assert!(t.get_allocation_info(4).is_none());
    assert_eq!(t.get_allocation_info(3).unwrap().timestamp, 190);
}

#[test]
fn clear_resets_everything() {
    let mut t = MemoryTracker::new();
    t.add_allocation(1, record(10, 0));
    t.update_stats(sample(5000));
    t.clear();
    let s = t.get_current_stats();
    assert_eq!(s.peak_usage, 0);
    assert_eq!(s.current_usage, 0);
    assert_eq!(s.total_allocated, 0);
    assert!(s.active_allocations.is_empty());
    assert_eq!(t.peak_usage, 0);
}

#[test]
fn age_query_boundaries() {
    let mut t = MemoryTracker::new();
    t.add_allocation(1, record(10, 0));
    t.add_allocation(2, record(20, i64::MAX));
    t.add_allocation(3, record(30, i64::MIN));
    let old = t.get_allocations_by_age_at(60, 60);
    let addrs: Vec<usize> = old.iter().map(|e| e.0).collect();
    assert_eq!(addrs, vec![1, 3]);
    let old = t.get_allocations_by_age_at(61, 60);
    let addrs: Vec<usize> = old.iter().map(|e| e.0).collect();
    assert_eq!(addrs, vec![3]);
}
