use rust_profiler::scheduler::generate_report;
use rust_profiler::{
    stats_from_readings, AllocationInfo, MemoryMapping, MemoryStats, ReportGenerator,
    SamplingScheduler, SessionEvent, SessionPhase, StopReason,
};

fn sample(current_usage: usize) -> MemoryStats {
    let mut s = MemoryStats::zeroed();
    s.current_usage = current_usage;
    s
}

#[test]
fn timeout_in_spawn_mode_terminates_child() {
    let mut sch = SamplingScheduler::new(true, false, 1, 2);
    let d = sch.handle_event(SessionEvent::Tick { sample: Some(sample(100)), elapsed_ms: 1000 });
    assert!(!d.terminate_child);
    assert_eq!(sch.phase, SessionPhase::Running);
    let d = sch.handle_event(SessionEvent::Tick { sample: Some(sample(300)), elapsed_ms: 2000 });
    assert!(d.terminate_child);
    assert_eq!(sch.phase, SessionPhase::Stopping(StopReason::TimeoutExceeded));
    let r = sch.finish(42, "prog --x".to_string(), 1_000_000, 1_002_000);
    assert_eq!(r.end_time, 1_002_000);
    assert_eq!(r.duration_ms, 2000);
    assert_eq!(r.memory_stats.current_usage, 300);
    assert_eq!(r.memory_stats.peak_usage, 300);
}

#[test]
fn timeout_in_attach_mode_does_not_terminate() {
    let mut sch = SamplingScheduler::new(false, false, 1, 1);
    let d = sch.handle_event(SessionEvent::Tick { sample: None, elapsed_ms: 1500 });
    assert!(!d.terminate_child);
    assert_eq!(sch.phase, SessionPhase::Stopping(StopReason::TimeoutExceeded));
}

#[test]
fn cancellation_keeps_last_snapshot() {
    let mut sch = SamplingScheduler::new(true, true, 1, 60);
    let d = sch.handle_event(SessionEvent::Tick { sample: Some(sample(800)), elapsed_ms: 1000 });
    assert!(d.show_live);
    let d = sch.handle_event(SessionEvent::Tick { sample: None, elapsed_ms: 2000 });
    assert!(!d.show_live);
    let d = sch.handle_event(SessionEvent::Cancelled);
    assert!(d.terminate_child);
    assert_eq!(sch.phase, SessionPhase::Stopping(StopReason::UserCancelled));
    let r = sch.finish(7, "app".to_string(), 10, 2010);
    assert_eq!(r.memory_stats.current_usage, 800);
    assert_eq!(r.memory_stats.peak_usage, 800);
    assert_eq!(r.leak_summary.total_leaked_bytes, 800);
    assert_eq!(r.leak_summary.leak_count, 0);
    assert_eq!(r.command, "app");
    assert_eq!(r.pid, 7);
}

#[test]
fn process_exit_stops_without_termination() {
    let mut sch = SamplingScheduler::new(true, false, 1, 60);
    let d = sch.handle_event(SessionEvent::ProcessExited);
    assert!(!d.terminate_child && !d.show_live);
    assert_eq!(sch.phase, SessionPhase::Stopping(StopReason::ProcessEnded));
}

#[test]
fn report_duration_is_clamped_at_zero() {
    let r = generate_report(1, "x".to_string(), 5000, 4000, MemoryStats::zeroed());
    assert_eq!(r.duration_ms, 0);
    let mut stats = MemoryStats::zeroed();
    stats.active_allocations.push((1, AllocationInfo { size: 9, timestamp: 0, stack_trace: Vec::new(), thread_id: 0 }));
    stats.current_usage = 9;
    let r = generate_report(1, "x".to_string(), 4000, 5500, stats);
    assert_eq!(r.duration_ms, 1500);
    assert_eq!(r.leak_summary.leaks_by_size, vec![(9, 1)]);
}

#[test]
fn readings_become_stats() {
    let s = stats_from_readings(10, 4096, Some(50), Some(80));
    assert_eq!(s.current_usage, 50 * 1024);
    assert_eq!(s.peak_usage, 80 * 1024);
    assert_eq!(s.total_allocated, 80 * 1024);
    assert_eq!(s.total_freed, 30 * 1024);
    let s = stats_from_readings(10, 4096, None, None);
    assert_eq!(s.current_usage, 40960);
    assert_eq!(s.total_freed, 0);
    let s = stats_from_readings(10, 4096, Some(100), None);
    assert_eq!(s.total_freed, 0);
    assert_eq!(s.total_allocated, 40960);
}

#[test]
fn mapping_size_from_range() {
    let m = MemoryMapping::from_range(0x1000, 0x3000, "rw-p".to_string(), None);
    assert_eq!(m.size, 0x2000);
}

#[test]
fn format_bytes_units() {
    let _g = ReportGenerator::new();
    assert_eq!(ReportGenerator::format_bytes(0), "0 B");
    assert_eq!(ReportGenerator::format_bytes(512), "512 B");
    assert_eq!(ReportGenerator::format_bytes(1023), "1023 B");
    assert_eq!(ReportGenerator::format_bytes(1024), "1.00 KB");
    assert_eq!(ReportGenerator::format_bytes(1536), "1.50 KB");
    assert_eq!(ReportGenerator::format_bytes(1048576), "1.00 MB");
    assert_eq!(ReportGenerator::format_bytes(5 * 1073741824), "5.00 GB");
    assert_eq!(ReportGenerator::format_bytes(2 * 1099511627776), "2.00 TB");
    assert_eq!(ReportGenerator::format_bytes(1100), "1.07 KB");
}

#[test]
fn finish_never_ends_before_start() {
    let mut sch = SamplingScheduler::new(false, false, 1, 60);
    sch.handle_event(SessionEvent::Cancelled);
    let r = sch.finish(3, "p".to_string(), 5000, 4000);
    assert_eq!(r.start_time, 5000);
    assert_eq!(r.end_time, 5000);
    assert_eq!(r.duration_ms, 0);
}
