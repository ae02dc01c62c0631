//! Memory profiling engine: running statistics over a sampled process,
//! a ledger of live allocations, leak analysis and the sampling state machine.

pub mod model;
pub mod memory_tracker;
pub mod leak_analysis;
pub mod scheduler;
pub mod process_stats;
pub mod report_generator;

pub use model::{AllocationInfo, LeakSummary, MemoryStats, ProfileReport};
pub use memory_tracker::MemoryTracker;
pub use leak_analysis::{calculate_leak_summary, largest_allocations};
pub use scheduler::{Decision, SamplingScheduler, SessionEvent, SessionPhase, StopReason};
pub use process_stats::{stats_from_readings, MemoryMapping};
pub use report_generator::ReportGenerator;
