use rust_profiler::{calculate_leak_summary, AllocationInfo, MemoryStats, MemoryTracker};

fn record(size: usize) -> AllocationInfo {
    AllocationInfo { size, timestamp: 0, stack_trace: Vec::new(), thread_id: 7 }
}

#[test]
fn three_live_allocations_grouped_by_size() {
    let mut t = MemoryTracker::new();
    t.add_allocation(1, record(100));
    t.add_allocation(2, record(100));
    t.add_allocation(3, record(200));
    let s = calculate_leak_summary(t.get_current_stats());
    assert_eq!(s.leak_count, 3);
    assert_eq!(s.largest_leak, Some(200));
    assert_eq!(s.leaks_by_size, vec![(200, 1), (100, 2)]);
    assert_eq!(s.total_leaked_bytes, 400);
}

#[test]
fn empty_ledger_has_no_leaks() {
    let s = calculate_leak_summary(&MemoryStats::zeroed());
    assert_eq!(s.leak_count, 0);
    assert_eq!(s.largest_leak, None);
    assert!(s.leaks_by_size.is_empty());
    assert_eq!(s.total_leaked_bytes, 0);
}

#[test]
fn summary_totals_match_ledger() {
    let mut t = MemoryTracker::new();
    let sizes = [8usize, 64, 8, 4096, 64, 8, 1];
    for (i, sz) in sizes.iter().enumerate() {
        t.add_allocation(0x1000 + i, record(*sz));
    }
    let s = calculate_leak_summary(t.get_current_stats());
    assert_eq!(s.leaks_by_size, vec![(4096, 1), (64, 2), (8, 3), (1, 1)]);
    let count: usize = s.leaks_by_size.iter().map(|p| p.1).sum();
    let bytes: usize = s.leaks_by_size.iter().map(|p| p.0 * p.1).sum();
    assert_eq!(count, s.leak_count);
    assert_eq!(bytes, s.total_leaked_bytes);
    assert_eq!(s.largest_leak, Some(4096));
}

#[test]
fn summary_is_deterministic() {
    let mut t = MemoryTracker::new();
    t.add_allocation(5, record(30));
    t.add_allocation(6, record(70));
    let a = calculate_leak_summary(t.get_current_stats());
    let b = calculate_leak_summary(t.get_current_stats());
    assert_eq!(a.leaks_by_size, b.leaks_by_size);
    assert_eq!(a.largest_leak, b.largest_leak);
    assert_eq!(a.leak_count, b.leak_count);
    assert_eq!(a.total_leaked_bytes, b.total_leaked_bytes);
}

#[test]
fn leaked_bytes_are_the_current_usage() {
    let mut s = MemoryStats::zeroed();
    s.current_usage = 1000;
    let r = calculate_leak_summary(&s);
    assert_eq!(r.total_leaked_bytes, 1000);
    assert_eq!(r.leak_count, 0);
}

#[test]
fn largest_allocations_pick_biggest_first() {
    let mut t = MemoryTracker::new();
    let sizes = [5usize, 90, 12, 90, 300, 1];
    for (i, sz) in sizes.iter().enumerate() {
        t.add_allocation(100 + i, record(*sz));
    }
    let stats = t.get_current_stats();
    let top = rust_profiler::largest_allocations(stats, 3);
    let picked: Vec<usize> = top.iter().map(|p| stats.active_allocations[*p].1.size).collect();
    assert_eq!(picked, vec![300, 90, 90]);
    assert_eq!(rust_profiler::largest_allocations(stats, 10).len(), 6);
    assert!(rust_profiler::largest_allocations(stats, 0).is_empty());
    assert!(rust_profiler::largest_allocations(&MemoryStats::zeroed(), 10).is_empty());
}
