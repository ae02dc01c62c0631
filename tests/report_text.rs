use rust_profiler::scheduler::generate_report;
use rust_profiler::{AllocationInfo, MemoryStats, ReportGenerator};

fn stats_with(sizes: &[usize]) -> MemoryStats {
    let mut s = MemoryStats::zeroed();
    for (i, sz) in sizes.iter().enumerate() {
        s.active_allocations.push((
            i + 1,
            AllocationInfo { size: *sz, timestamp: 0, stack_trace: Vec::new(), thread_id: 0 },
        ));
        s.current_usage += sz;
        s.total_allocated += sz;
        s.peak_usage += sz;
        s.allocation_count += 1;
    }
    s
}

#[test]
fn detailed_report_without_leaks() {
    let r = generate_report(12, "sleep 1".to_string(), 0, 2000, MemoryStats::zeroed());
    let text = ReportGenerator::detailed_report_with(&r, "2.00s", "S", "E");
    let expected = "# Memory Profile Report\n\n**Process:** sleep 1 (PID: 12)\n**Duration:** 2.00s\n\
**Start Time:** S\n**End Time:** E\n\n## Memory Statistics\n\n- **Total Allocated:** 0 B\n\
- **Total Freed:** 0 B\n- **Current Usage:** 0 B\n- **Peak Usage:** 0 B\n- **Allocation Count:** 0\n\
- **Free Count:** 0\n\n## Leak Analysis\n\n✅ No memory leaks detected!\n";
    assert_eq!(text, expected);
}

#[test]
fn detailed_report_with_leaks() {
    let r = generate_report(34, "app".to_string(), 0, 0, stats_with(&[100, 100, 2048]));
    let text = ReportGenerator::detailed_report_with(&r, "d", "s", "e");
    assert!(text.contains("- **Current Usage:** 2.20 KB\n"));
    assert!(text.contains("- **Allocation Count:** 3\n"));
    assert!(text.contains("⚠️ **3 memory leaks detected**\n\n- **Total Leaked:** 2.20 KB\n- **Largest Leak:** 2.00 KB\n\n### Leaks by Size\n"));
    assert!(text.ends_with("| Size | Count | Total |\n|------|-------|-------|\n| 2.00 KB | 1 | 2.00 KB |\n| 100 B | 2 | 200 B |\n"));
}

#[test]
fn detailed_report_shows_times() {
    let r = generate_report(1, "x".to_string(), 1000, 2500, MemoryStats::zeroed());
    let text = ReportGenerator::new().generate_detailed_report(&r);
    assert!(text.contains("**Duration:** 1.50s\n"));
    assert!(text.contains("**Start Time:** 1970-01-01 00:00:01 UTC\n"));
    assert!(text.contains("**End Time:** 1970-01-01 00:00:02.500 UTC\n"));
}
