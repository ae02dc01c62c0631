use vstd::prelude::*;

verus! {

/// One allocation that is still live.
pub struct AllocationInfo {
    pub size: usize,
    /// When the allocation was observed, in seconds since the Unix epoch.
    pub timestamp: i64,
    pub stack_trace: Vec<String>,
    pub thread_id: u32,
}

/// A point-in-time view of a process's memory counters, with the ledger of
/// live allocations keyed by address.
pub struct MemoryStats {
    pub total_allocated: usize,
    pub total_freed: usize,
    pub current_usage: usize,
    pub peak_usage: usize,
    pub allocation_count: u64,
    pub free_count: u64,
    /// Address and record of each live allocation; no address occurs twice.
    pub active_allocations: Vec<(usize, AllocationInfo)>,
}

/// Leak summary derived from one set of statistics.
pub struct LeakSummary {
    pub total_leaked_bytes: usize,
    pub leak_count: usize,
    pub largest_leak: Option<usize>,
    /// `(size, count)` pairs, largest size first, one pair per distinct size.
    pub leaks_by_size: Vec<(usize, usize)>,
}

/// A finished profiling session.
pub struct ProfileReport {
    pub pid: u32,
    pub command: String,
    /// Start of sampling, in milliseconds since the Unix epoch.
    pub start_time: i64,
    /// End of sampling, in milliseconds since the Unix epoch.
    pub end_time: i64,
    /// Time from start to end in milliseconds; zero if the end precedes the start.
    pub duration_ms: u64,
    pub memory_stats: MemoryStats,
    pub leak_summary: LeakSummary,
}

/// No address occurs twice in the ledger.
pub open spec fn addresses_unique(entries: Seq<(usize, AllocationInfo)>) -> bool {
    forall|i: int, j: int|
        0 <= i < j < entries.len() ==> #[trigger] entries[i].0 != #[trigger] entries[j].0
}

/// The ledger holds an entry for `address`.
pub open spec fn holds_address(entries: Seq<(usize, AllocationInfo)>, address: usize) -> bool {
    exists|i: int| 0 <= i < entries.len() && #[trigger] entries[i].0 == address
}

/// Sum of the sizes of the ledger's entries.
pub open spec fn total_size(entries: Seq<(usize, AllocationInfo)>) -> int
    decreases entries.len(),
{
    if entries.len() == 0 {
        0
    } else {
        total_size(entries.drop_last()) + entries.last().1.size
    }
}

impl MemoryStats {
    /// All counters zero and the ledger empty.
    pub open spec fn is_zeroed(&self) -> bool {
        &&& self.total_allocated == 0
        &&& self.total_freed == 0
        &&& self.current_usage == 0
        &&& self.peak_usage == 0
        &&& self.allocation_count == 0
        &&& self.free_count == 0
        &&& self.active_allocations@.len() == 0
    }

    /// The counters agree with the ledger: the current usage is the total size
    /// of the live entries, and each recorded allocation is either live or freed.
    pub open spec fn accounting_consistent(&self) -> bool {
        &&& self.current_usage == total_size(self.active_allocations@)
        &&& self.active_allocations@.len() == self.allocation_count - self.free_count
    }

    /// Statistics with every counter zero and an empty ledger.
    pub fn zeroed() -> (r: MemoryStats)
        ensures
            r.is_zeroed(),
    {
        MemoryStats {
            total_allocated: 0,
            total_freed: 0,
            current_usage: 0,
            peak_usage: 0,
            allocation_count: 0,
            free_count: 0,
            active_allocations: Vec::new(),
        }
    }
}

/// Removing the entry at `i` takes its size off the total.
pub proof fn lemma_total_size_remove(entries: Seq<(usize, AllocationInfo)>, i: int)
    requires
        0 <= i < entries.len(),
    ensures
        total_size(entries.remove(i)) == total_size(entries) - entries[i].1.size,
    decreases entries.len(),
{
    if i == entries.len() - 1 {
        assert(entries.remove(i) =~= entries.drop_last());
    } else {
        lemma_total_size_remove(entries.drop_last(), i);
        assert(entries.remove(i).drop_last() =~= entries.drop_last().remove(i));
    }
}

/// Sizes are non-negative, so one entry never exceeds the total.
pub proof fn lemma_entry_within_total(entries: Seq<(usize, AllocationInfo)>, i: int)
    requires
        0 <= i < entries.len(),
    ensures
        entries[i].1.size <= total_size(entries),
        total_size(entries) >= 0,
    decreases entries.len(),
{
    lemma_total_size_nonneg(entries.drop_last());
    if i < entries.len() - 1 {
        lemma_entry_within_total(entries.drop_last(), i);
    }
}

/// The total size is never negative.
pub proof fn lemma_total_size_nonneg(entries: Seq<(usize, AllocationInfo)>)
    ensures
        total_size(entries) >= 0,
    decreases entries.len(),
{
    if entries.len() > 0 {
        lemma_total_size_nonneg(entries.drop_last());
    }
}

} // verus!
