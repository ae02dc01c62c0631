use vstd::prelude::*;

use crate::leak_analysis::{calculate_leak_summary, is_leak_summary_of};
use crate::memory_tracker::MemoryTracker;
use crate::model::{addresses_unique, MemoryStats, ProfileReport};

verus! {

/// Why sampling stopped.
#[derive(PartialEq, Eq, Structural, Clone, Copy, Debug)]
pub enum StopReason {
    TimeoutExceeded,
    ProcessEnded,
    UserCancelled,
}

/// Where a session stands. Once stopping, the session only waits to be
/// finished into a report.
#[derive(PartialEq, Eq, Structural, Clone, Copy, Debug)]
pub enum SessionPhase {
    Running,
    Stopping(StopReason),
}

/// What the sampling loop observed.
pub enum SessionEvent {
    /// The timer fired. `sample` is the inspection's result, `None` where it
    /// could not be read; `elapsed_ms` is the monotonic time since the start.
    Tick { sample: Option<MemoryStats>, elapsed_ms: u64 },
    /// The monitored process is gone.
    ProcessExited,
    /// An interrupt arrived.
    Cancelled,
}

/// What the loop is to do after an event.
#[derive(PartialEq, Eq, Structural, Clone, Copy, Debug)]
pub struct Decision {
    /// Show the current statistics.
    pub show_live: bool,
    /// Terminate the child that this session launched.
    pub terminate_child: bool,
}

/// The decisions of one profiling session: which events stop it, when the
/// child is terminated, and how samples reach the tracker.
pub struct SamplingScheduler {
    pub tracker: MemoryTracker,
    pub phase: SessionPhase,
    /// The session launched the monitored process itself.
    pub spawned_child: bool,
    pub live_mode: bool,
    pub interval_secs: u64,
    pub max_duration_secs: u64,
}

/// A tick at `elapsed_ms` is past a limit of `max_secs` seconds.
pub open spec fn past_deadline(elapsed_ms: u64, max_secs: u64) -> bool {
    elapsed_ms >= max_secs * 1000
}

impl SamplingScheduler {
    pub open spec fn wf(&self) -> bool {
        &&& self.tracker.wf()
        &&& self.interval_secs > 0
    }

    /// A running session with an empty tracker. The interval must be positive.
    pub fn new(spawned_child: bool, live_mode: bool, interval_secs: u64, max_duration_secs: u64) -> (r: Self)
        requires
            interval_secs > 0,
        ensures
            r.wf(),
            r.phase == SessionPhase::Running,
            r.tracker.current_stats.is_zeroed(),
            r.tracker.peak_usage == 0,
            r.spawned_child == spawned_child,
            r.live_mode == live_mode,
            r.interval_secs == interval_secs,
            r.max_duration_secs == max_duration_secs,
    {
        SamplingScheduler {
            tracker: MemoryTracker::new(),
            phase: SessionPhase::Running,
            spawned_child,
            live_mode,
            interval_secs,
            max_duration_secs,
        }
    }

    /// Handles one event of a running session.
    ///
    /// A tick hands a successful sample to the tracker and asks for the live
    /// display when it is on; a failed read changes nothing. After either, a
    /// tick past the maximum duration stops the session with
    /// `TimeoutExceeded`. A process exit stops it with `ProcessEnded`, an
    /// interrupt with `UserCancelled`. A launched child is terminated on
    /// timeout and on interrupt.
    pub fn handle_event(&mut self, event: SessionEvent) -> (d: Decision)
        requires
            old(self).wf(),
            old(self).phase == SessionPhase::Running,
            match event {
                SessionEvent::Tick { sample: Some(s), .. } => addresses_unique(
                    s.active_allocations@,
                ),
                _ => true,
            },
        ensures
            final(self).wf(),
            final(self).spawned_child == old(self).spawned_child,
            final(self).live_mode == old(self).live_mode,
            final(self).interval_secs == old(self).interval_secs,
            final(self).max_duration_secs == old(self).max_duration_secs,
            match event {
                SessionEvent::Tick { sample, elapsed_ms } => {
                    &&& match sample {
                        Some(s) => old(self).tracker.sampled_into(s, final(self).tracker)
                            && d.show_live == old(self).live_mode,
                        None => final(self).tracker == old(self).tracker && !d.show_live,
                    }
                    &&& if past_deadline(elapsed_ms, old(self).max_duration_secs) {
                        final(self).phase == SessionPhase::Stopping(StopReason::TimeoutExceeded)
                            && d.terminate_child == old(self).spawned_child
                    } else {
                        final(self).phase == SessionPhase::Running && !d.terminate_child
                    }
                },
                SessionEvent::ProcessExited => {
                    &&& final(self).tracker == old(self).tracker
                    &&& final(self).phase == SessionPhase::Stopping(StopReason::ProcessEnded)
                    &&& d == Decision { show_live: false, terminate_child: false }
                },
                SessionEvent::Cancelled => {
                    &&& final(self).tracker == old(self).tracker
                    &&& final(self).phase == SessionPhase::Stopping(StopReason::UserCancelled)
                    &&& d == Decision { show_live: false, terminate_child: old(self).spawned_child }
                },
            },
    {
        match event {
            SessionEvent::Tick { sample, elapsed_ms } => {
                let mut show_live = false;
                match sample {
                    Some(s) => {
                        self.tracker.update_stats(s);
                        show_live = self.live_mode;
                    },
                    None => {},
                }
                let limit: u128 = self.max_duration_secs as u128 * 1000;
                if elapsed_ms as u128 >= limit {
                    self.phase = SessionPhase::Stopping(StopReason::TimeoutExceeded);
                    Decision { show_live, terminate_child: self.spawned_child }
                } else {
                    Decision { show_live, terminate_child: false }
                }
            },
            SessionEvent::ProcessExited => {
                self.phase = SessionPhase::Stopping(StopReason::ProcessEnded);
                Decision { show_live: false, terminate_child: false }
            },
            SessionEvent::Cancelled => {
                self.phase = SessionPhase::Stopping(StopReason::UserCancelled);
                Decision { show_live: false, terminate_child: self.spawned_child }
            },
        }
    }

    /// Ends a stopping session: the tracker's last statistics, their leak
    /// summary and the times given make the report. An end before the start
    /// (a clock set back meanwhile) is taken as the start. Nothing can change
    /// the statistics afterwards.
    pub fn finish(self, pid: u32, command: String, start_time: i64, end_time: i64) -> (r:
        ProfileReport)
        requires
            self.wf(),
            self.phase != SessionPhase::Running,
        ensures
            r.memory_stats == self.tracker.current_stats,
            r.memory_stats.current_usage <= r.memory_stats.peak_usage,
            r.start_time <= r.end_time,
            r.end_time == (if end_time >= start_time { end_time } else { start_time }),
            r.duration_ms == r.end_time - r.start_time,
            report_is_complete(r, pid, command, start_time, r.end_time),
    {
        let end = if end_time >= start_time { end_time } else { start_time };
        generate_report(pid, command, start_time, end, self.tracker.get_final_stats())
    }
}

/// Milliseconds from `start` to `end`, or zero if `end` comes first.
pub open spec fn elapsed_between(start: i64, end: i64) -> int {
    if end >= start {
        end - start
    } else {
        0
    }
}

/// The report carries the session's facts, a duration that matches its
/// times, and the leak summary of its statistics.
pub open spec fn report_is_complete(
    r: ProfileReport,
    pid: u32,
    command: String,
    start_time: i64,
    end_time: i64,
) -> bool {
    &&& r.pid == pid
    &&& r.command == command
    &&& r.start_time == start_time
    &&& r.end_time == end_time
    &&& r.duration_ms == elapsed_between(start_time, end_time)
    &&& is_leak_summary_of(r.leak_summary, r.memory_stats)
}

/// Assembles the report of a session from its final statistics.
pub fn generate_report(
    pid: u32,
    command: String,
    start_time: i64,
    end_time: i64,
    memory_stats: MemoryStats,
) -> (r: ProfileReport)
    ensures
        r.memory_stats == memory_stats,
        report_is_complete(r, pid, command, start_time, end_time),
{
    let duration_ms: u64 = if end_time >= start_time {
        (end_time as i128 - start_time as i128) as u64
    } else {
        0
    };
    let leak_summary = calculate_leak_summary(&memory_stats);
    ProfileReport { pid, command, start_time, end_time, duration_ms, memory_stats, leak_summary }
}

} // verus!
