use vstd::prelude::*;

use crate::model::MemoryStats;

verus! {

/// One mapped region of a process's address space.
pub struct MemoryMapping {
    pub start_address: u64,
    pub end_address: u64,
    pub size: u64,
    pub permissions: String,
    pub pathname: Option<String>,
}

impl MemoryMapping {
    /// A region from `start_address` up to `end_address`; its size is their
    /// difference.
    pub fn from_range(
        start_address: u64,
        end_address: u64,
        permissions: String,
        pathname: Option<String>,
    ) -> (r: MemoryMapping)
        requires
            start_address <= end_address,
        ensures
            r.start_address == start_address,
            r.end_address == end_address,
            r.size == end_address - start_address,
            r.permissions == permissions,
            r.pathname == pathname,
    {
        MemoryMapping {
            start_address,
            end_address,
            size: end_address - start_address,
            permissions,
            pathname,
        }
    }
}

/// Statistics from one read of the kernel's counters: the resident set in
/// pages, the page size in bytes, and the resident and peak sizes in KiB
/// where the status file gives them. The resident size stands for the current
/// usage, the peak for the total allocated, and their difference for the
/// total freed; a missing figure falls back to the resident pages.
pub open spec fn stats_from_readings_spec(
    resident_pages: u64,
    page_size: u64,
    vmrss_kb: Option<u64>,
    vmpeak_kb: Option<u64>,
) -> (int, int) {
    let resident = resident_pages * page_size;
    let rss = match vmrss_kb {
        Some(kb) => kb * 1024,
        None => resident,
    };
    let peak = match vmpeak_kb {
        Some(kb) => kb * 1024,
        None => resident,
    };
    (rss, peak)
}

/// Turns one read of the kernel's counters into statistics with an empty
/// ledger and no allocation counts.
pub fn stats_from_readings(
    resident_pages: u64,
    page_size: u64,
    vmrss_kb: Option<u64>,
    vmpeak_kb: Option<u64>,
) -> (r: MemoryStats)
    requires
        resident_pages * page_size <= usize::MAX,
        vmrss_kb matches Some(kb) ==> kb * 1024 <= usize::MAX,
        vmpeak_kb matches Some(kb) ==> kb * 1024 <= usize::MAX,
    ensures
        ({
            let (rss, peak) = stats_from_readings_spec(resident_pages, page_size, vmrss_kb, vmpeak_kb);
            &&& r.current_usage == rss
            &&& r.total_allocated == peak
            &&& r.peak_usage == peak
            &&& r.total_freed == (if peak >= rss { peak - rss } else { 0 })
        }),
        r.allocation_count == 0,
        r.free_count == 0,
        r.active_allocations@.len() == 0,
{
    let resident: usize = (resident_pages * page_size) as usize;
    let vmrss: usize = match vmrss_kb {
        Some(kb) => (kb * 1024) as usize,
        None => resident,
    };
    let vmpeak: usize = match vmpeak_kb {
        Some(kb) => (kb * 1024) as usize,
        None => resident,
    };
    MemoryStats {
        total_allocated: vmpeak,
        total_freed: vmpeak.saturating_sub(vmrss),
        current_usage: vmrss,
        peak_usage: vmpeak,
        allocation_count: 0,
        free_count: 0,
        active_allocations: Vec::new(),
    }
}

} // verus!
