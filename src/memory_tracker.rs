use vstd::prelude::*;

use crate::model::{
    addresses_unique, holds_address, lemma_entry_within_total, lemma_total_size_remove,
    total_size, AllocationInfo, MemoryStats,
};

verus! {

/// Keeps one set of statistics up to date across samples and allocation
/// events, together with the highest usage seen so far.
pub struct MemoryTracker {
    pub current_stats: MemoryStats,
    pub peak_usage: usize,
}

/// The larger of two usages.
pub open spec fn max_usage(a: usize, b: usize) -> usize {
    if a >= b {
        a
    } else {
        b
    }
}

/// Entries of the ledger whose size is at least `min_size`, in ledger order.
pub open spec fn entries_at_least(entries: Seq<(usize, AllocationInfo)>, min_size: usize) -> Seq<
    (usize, AllocationInfo),
>
    decreases entries.len(),
{
    if entries.len() == 0 {
        Seq::empty()
    } else {
        let rest = entries_at_least(entries.drop_last(), min_size);
        if entries.last().1.size >= min_size {
            rest.push(entries.last())
        } else {
            rest
        }
    }
}

/// Entries of the ledger that are at least `min_age` seconds old at `now`,
/// in ledger order.
pub open spec fn entries_older_than(
    entries: Seq<(usize, AllocationInfo)>,
    min_age: i64,
    now: i64,
) -> Seq<(usize, AllocationInfo)>
    decreases entries.len(),
{
    if entries.len() == 0 {
        Seq::empty()
    } else {
        let rest = entries_older_than(entries.drop_last(), min_age, now);
        if now - entries.last().1.timestamp >= min_age {
            rest.push(entries.last())
        } else {
            rest
        }
    }
}

impl MemoryTracker {
    /// The tracked peak is mirrored in the statistics, is at least the current
    /// usage, and the ledger holds each address once.
    pub open spec fn wf(&self) -> bool {
        &&& self.current_stats.peak_usage == self.peak_usage
        &&& self.current_stats.current_usage <= self.peak_usage
        &&& addresses_unique(self.current_stats.active_allocations@)
    }

    /// `next` is this tracker after taking over the counters of `sample`.
    pub open spec fn sampled_into(&self, sample: MemoryStats, next: MemoryTracker) -> bool {
        &&& next.peak_usage == max_usage(self.peak_usage, sample.current_usage)
        &&& next.current_stats.peak_usage == next.peak_usage
        &&& next.current_stats.total_allocated == sample.total_allocated
        &&& next.current_stats.total_freed == sample.total_freed
        &&& next.current_stats.current_usage == sample.current_usage
        &&& next.current_stats.allocation_count == sample.allocation_count
        &&& next.current_stats.free_count == sample.free_count
        &&& next.current_stats.active_allocations@ == sample.active_allocations@
    }

    /// `next` is this tracker after recording `info` at `address`: the
    /// totals and the count grow, the peak follows the usage, and the ledger
    /// replaces the entry for `address` or gains one at its end.
    pub open spec fn added_into(&self, address: usize, info: AllocationInfo, next: MemoryTracker) -> bool {
        let before = self.current_stats;
        let after = next.current_stats;
        &&& after.total_allocated == before.total_allocated + info.size
        &&& after.current_usage == before.current_usage + info.size
        &&& after.allocation_count == before.allocation_count + 1
        &&& after.total_freed == before.total_freed
        &&& after.free_count == before.free_count
        &&& next.peak_usage == max_usage(self.peak_usage, after.current_usage)
        &&& holds_address(before.active_allocations@, address) ==> exists|i: int|
            0 <= i < before.active_allocations@.len() && #[trigger] before.active_allocations@[i].0
                == address && after.active_allocations@ == before.active_allocations@.update(
                i,
                (address, info),
            )
        &&& !holds_address(before.active_allocations@, address) ==> after.active_allocations@
            == before.active_allocations@.push((address, info))
    }

    /// `next` and `r` are this tracker and the answer after removing
    /// `address`: an absent address changes nothing and gives `None`; a
    /// present one leaves the ledger, its size moves from the current usage
    /// (never below zero) to the freed total, and its record is returned.
    pub open spec fn removed_into(
        &self,
        address: usize,
        r: Option<AllocationInfo>,
        next: MemoryTracker,
    ) -> bool {
        let before = self.current_stats;
        let after = next.current_stats;
        let entries = before.active_allocations@;
        &&& !holds_address(entries, address) ==> r.is_none() && next == *self
        &&& holds_address(entries, address) ==> exists|i: int|
            0 <= i < entries.len() && #[trigger] entries[i].0 == address && r == Some(entries[i].1)
                && after.active_allocations@ == entries.remove(i) && after.total_freed
                == before.total_freed + entries[i].1.size && after.current_usage == (if before.current_usage
                >= entries[i].1.size {
                before.current_usage - entries[i].1.size
            } else {
                0
            }) && after.free_count == before.free_count + 1
        &&& holds_address(entries, address) ==> {
            &&& next.peak_usage == self.peak_usage
            &&& after.total_allocated == before.total_allocated
            &&& after.allocation_count == before.allocation_count
        }
    }

    pub fn new() -> (r: Self)
        ensures
            r.wf(),
            r.current_stats.is_zeroed(),
            r.peak_usage == 0,
            r.current_stats.accounting_consistent(),
    {
        MemoryTracker { current_stats: MemoryStats::zeroed(), peak_usage: 0 }
    }

    /// Takes over every counter of a coarse sample; the peak becomes the
    /// larger of the previous peak and the sample's current usage.
    pub fn update_stats(&mut self, new_stats: MemoryStats)
        requires
            old(self).wf(),
            addresses_unique(new_stats.active_allocations@),
        ensures
            final(self).wf(),
            old(self).sampled_into(new_stats, *final(self)),
    {
        if new_stats.current_usage > self.peak_usage {
            self.peak_usage = new_stats.current_usage;
        }
        self.current_stats = new_stats;
        self.current_stats.peak_usage = self.peak_usage;
    }

    pub fn get_current_stats(&self) -> (r: &MemoryStats)
        ensures
            *r == self.current_stats,
    {
        &self.current_stats
    }

    pub fn get_final_stats(self) -> (r: MemoryStats)
        ensures
            r == self.current_stats,
    {
        self.current_stats
    }

    /// Index of the ledger entry for `address`, if there is one.
    fn find_entry(&self, address: usize) -> (r: Option<usize>)
        ensures
            match r {
                Some(i) => i < self.current_stats.active_allocations@.len()
                    && self.current_stats.active_allocations@[i as int].0 == address,
                None => !holds_address(self.current_stats.active_allocations@, address),
            },
    {
        let entries = &self.current_stats.active_allocations;
        let mut i: usize = 0;
        while i < entries.len()
            invariant
                entries@ == self.current_stats.active_allocations@,
                i <= entries@.len(),
                forall|k: int| 0 <= k < i ==> #[trigger] entries@[k].0 != address,
            decreases entries@.len() - i,
        {
            if entries[i].0 == address {
                return Some(i);
            }
            i = i + 1;
        }
        None
    }

    /// Records a new live allocation. An entry already held for `address` is
    /// replaced by the new one.
    pub fn add_allocation(&mut self, address: usize, info: AllocationInfo)
        requires
            old(self).wf(),
            old(self).current_stats.total_allocated + info.size <= usize::MAX,
            old(self).current_stats.current_usage + info.size <= usize::MAX,
            old(self).current_stats.allocation_count < u64::MAX,
        ensures
            final(self).wf(),
            old(self).added_into(address, info, *final(self)),
            // Without duplicate addresses the counters keep agreeing with the ledger.
            old(self).current_stats.accounting_consistent() && !holds_address(
                old(self).current_stats.active_allocations@,
                address,
            ) ==> final(self).current_stats.accounting_consistent(),
    {
        let size = info.size;
        self.current_stats.total_allocated = self.current_stats.total_allocated + size;
        self.current_stats.current_usage = self.current_stats.current_usage + size;
        self.current_stats.allocation_count = self.current_stats.allocation_count + 1;
        let found = self.find_entry(address);
        let ghost prev = self.current_stats.active_allocations@;
        match found {
            Some(i) => {
                self.current_stats.active_allocations.set(i, (address, info));
                assert(forall|k: int|
                    0 <= k < prev.len() && k != i ==> prev[k] == #[trigger] self.current_stats.active_allocations@[k]);
            },
            None => {
                self.current_stats.active_allocations.push((address, info));
                assert(self.current_stats.active_allocations@.drop_last() =~= prev);
            },
        }
        if self.current_stats.current_usage > self.peak_usage {
            self.peak_usage = self.current_stats.current_usage;
            self.current_stats.peak_usage = self.peak_usage;
        }
    }

    /// Removes the entry for `address` and returns it; an absent address
    /// leaves everything as it was. The current usage never drops below zero.
    pub fn remove_allocation(&mut self, address: usize) -> (r: Option<AllocationInfo>)
        requires
            old(self).wf(),
            forall|i: int|
                0 <= i < old(self).current_stats.active_allocations@.len()
                    && #[trigger] old(self).current_stats.active_allocations@[i].0 == address
                    ==> old(self).current_stats.total_freed
                    + old(self).current_stats.active_allocations@[i].1.size <= usize::MAX
                    && old(self).current_stats.free_count < u64::MAX,
        ensures
            final(self).wf(),
            old(self).removed_into(address, r, *final(self)),
            // Removal keeps the counters agreeing with the ledger.
            old(self).current_stats.accounting_consistent()
                ==> final(self).current_stats.accounting_consistent(),
    {
        match self.find_entry(address) {
            None => None,
            Some(i) => {
                let ghost prev = self.current_stats.active_allocations@;
                let (_, info) = self.current_stats.active_allocations.remove(i);
                proof {
                    lemma_total_size_remove(prev, i as int);
                    lemma_entry_within_total(prev, i as int);
                    assert forall|a: int, b: int|
                        0 <= a < b < prev.len() - 1 implies #[trigger] self.current_stats.active_allocations@[a].0
                        != #[trigger] self.current_stats.active_allocations@[b].0 by {
                        let a2 = if a < i { a } else { a + 1 };
                        let b2 = if b < i { b } else { b + 1 };
                        assert(prev[a2].0 != prev[b2].0);
                    }
                }
                let size = info.size;
                self.current_stats.total_freed = self.current_stats.total_freed + size;
                if self.current_stats.current_usage >= size {
                    self.current_stats.current_usage = self.current_stats.current_usage - size;
                } else {
                    self.current_stats.current_usage = 0;
                }
                self.current_stats.free_count = self.current_stats.free_count + 1;
                Some(info)
            },
        }
    }

    pub fn get_allocation_info(&self, address: usize) -> (r: Option<&AllocationInfo>)
        ensures
            r.is_some() == holds_address(self.current_stats.active_allocations@, address),
            r.is_some() ==> exists|i: int|
                0 <= i < self.current_stats.active_allocations@.len()
                    && #[trigger] self.current_stats.active_allocations@[i]
                    == (address, *r.unwrap()),
    {
        match self.find_entry(address) {
            None => None,
            Some(i) => Some(&self.current_stats.active_allocations[i].1),
        }
    }

    /// Live entries whose size is at least `min_size`, in ledger order.
    pub fn get_allocations_by_size(&self, min_size: usize) -> (r: Vec<(usize, &AllocationInfo)>)
        ensures
            r@.len() == entries_at_least(self.current_stats.active_allocations@, min_size).len(),
            forall|k: int|
                0 <= k < r@.len() ==> (#[trigger] r@[k]).0 == entries_at_least(
                    self.current_stats.active_allocations@,
                    min_size,
                )[k].0 && *r@[k].1 == entries_at_least(
                    self.current_stats.active_allocations@,
                    min_size,
                )[k].1,
    {
        let entries = &self.current_stats.active_allocations;
        let mut out: Vec<(usize, &AllocationInfo)> = Vec::new();
        let mut i: usize = 0;
        while i < entries.len()
            invariant
                entries@ == self.current_stats.active_allocations@,
                i <= entries@.len(),
                out@.len() == entries_at_least(entries@.take(i as int), min_size).len(),
                forall|k: int|
                    0 <= k < out@.len() ==> (#[trigger] out@[k]).0 == entries_at_least(
                        entries@.take(i as int),
                        min_size,
                    )[k].0 && *out@[k].1 == entries_at_least(entries@.take(i as int), min_size)[k].1,
            decreases entries@.len() - i,
        {
            assert(entries@.take(i + 1).drop_last() =~= entries@.take(i as int));
            if entries[i].1.size >= min_size {
                out.push((entries[i].0, &entries[i].1));
            }
            i = i + 1;
        }
        assert(entries@.take(entries@.len() as int) =~= entries@);
        out
    }

    /// Live entries that are at least `min_age_seconds` old at `now` (both in
    /// seconds, `now` since the Unix epoch), in ledger order.
    pub fn get_allocations_by_age_at(&self, min_age_seconds: i64, now: i64) -> (r: Vec<
        (usize, &AllocationInfo),
    >)
        ensures
            r@.len() == entries_older_than(
                self.current_stats.active_allocations@,
                min_age_seconds,
                now,
            ).len(),
            forall|k: int|
                0 <= k < r@.len() ==> (#[trigger] r@[k]).0 == entries_older_than(
                    self.current_stats.active_allocations@,
                    min_age_seconds,
                    now,
                )[k].0 && *r@[k].1 == entries_older_than(
                    self.current_stats.active_allocations@,
                    min_age_seconds,
                    now,
                )[k].1,
    {
        let entries = &self.current_stats.active_allocations;
        let mut out: Vec<(usize, &AllocationInfo)> = Vec::new();
        let mut i: usize = 0;
        while i < entries.len()
            invariant
                entries@ == self.current_stats.active_allocations@,
                i <= entries@.len(),
                out@.len() == entries_older_than(
                    entries@.take(i as int),
                    min_age_seconds,
                    now,
                ).len(),
                forall|k: int|
                    0 <= k < out@.len() ==> (#[trigger] out@[k]).0 == entries_older_than(
                        entries@.take(i as int),
                        min_age_seconds,
                        now,
                    )[k].0 && *out@[k].1 == entries_older_than(
                        entries@.take(i as int),
                        min_age_seconds,
                        now,
                    )[k].1,
            decreases entries@.len() - i,
        {
            assert(entries@.take(i + 1).drop_last() =~= entries@.take(i as int));
            let age: i128 = now as i128 - entries[i].1.timestamp as i128;
            if age >= min_age_seconds as i128 {
                out.push((entries[i].0, &entries[i].1));
            }
            i = i + 1;
        }
        assert(entries@.take(entries@.len() as int) =~= entries@);
        out
    }

    /// Resets to empty statistics and a zero peak.
    pub fn clear(&mut self)
        ensures
            final(self).wf(),
            final(self).current_stats.is_zeroed(),
            final(self).peak_usage == 0,
            final(self).current_stats.accounting_consistent(),
    {
        self.current_stats = MemoryStats::zeroed();
        self.peak_usage = 0;
    }
}

/// Law of the peak: starting from a fresh tracker and taking samples one after
/// another, the peak after the first `k` samples is the largest current usage
/// among them (zero before any sample).
pub proof fn lemma_peak_is_running_max(
    trackers: Seq<MemoryTracker>,
    samples: Seq<MemoryStats>,
    k: int,
)
    requires
        trackers.len() == samples.len() + 1,
        trackers[0].peak_usage == 0,
        forall|j: int|
            0 <= j < samples.len() ==> #[trigger] trackers[j].sampled_into(
                samples[j],
                trackers[j + 1],
            ),
        0 <= k <= samples.len(),
    ensures
        forall|j: int| 0 <= j < k ==> (#[trigger] samples[j]).current_usage <= trackers[k].peak_usage,
        k == 0 ==> trackers[k].peak_usage == 0,
        k > 0 ==> exists|j: int|
            0 <= j < k && (#[trigger] samples[j]).current_usage == trackers[k].peak_usage,
    decreases k,
{
    if k > 0 {
        lemma_peak_is_running_max(trackers, samples, k - 1);
        let prev = k - 1;
        assert(trackers[prev].sampled_into(samples[prev], trackers[prev + 1]));
        assert(prev + 1 == k);
        if k - 1 > 0 && trackers[k].peak_usage == trackers[k - 1].peak_usage {
            let j = choose|j: int|
                0 <= j < k - 1 && (#[trigger] samples[j]).current_usage == trackers[k - 1].peak_usage;
            assert(samples[j].current_usage == trackers[k].peak_usage);
        } else {
            assert(samples[k - 1].current_usage == trackers[k].peak_usage);
        }
    }
}

/// Recording an allocation at an address the ledger does not hold keeps the
/// counters agreeing with the ledger.
pub proof fn lemma_add_keeps_accounting(
    t: MemoryTracker,
    address: usize,
    info: AllocationInfo,
    next: MemoryTracker,
)
    requires
        t.current_stats.accounting_consistent(),
        !holds_address(t.current_stats.active_allocations@, address),
        t.added_into(address, info, next),
    ensures
        next.current_stats.accounting_consistent(),
{
    assert(next.current_stats.active_allocations@.drop_last() =~= t.current_stats.active_allocations@);
}

/// Removing an address keeps the counters agreeing with the ledger.
pub proof fn lemma_remove_keeps_accounting(
    t: MemoryTracker,
    address: usize,
    r: Option<AllocationInfo>,
    next: MemoryTracker,
)
    requires
        t.current_stats.accounting_consistent(),
        t.removed_into(address, r, next),
    ensures
        next.current_stats.accounting_consistent(),
{
    let entries = t.current_stats.active_allocations@;
    if holds_address(entries, address) {
        let i = choose|i: int|
            0 <= i < entries.len() && #[trigger] entries[i].0 == address && r == Some(entries[i].1)
                && next.current_stats.active_allocations@ == entries.remove(i)
                && next.current_stats.total_freed == t.current_stats.total_freed
                + entries[i].1.size && next.current_stats.current_usage == (if t.current_stats.current_usage
                >= entries[i].1.size {
                t.current_stats.current_usage - entries[i].1.size
            } else {
                0
            }) && next.current_stats.free_count == t.current_stats.free_count + 1;
        lemma_total_size_remove(entries, i);
        lemma_entry_within_total(entries, i);
    }
}

/// One step of the allocation path: an allocation recorded at an address the
/// ledger does not hold, or a removal.
pub open spec fn ledger_step(t: MemoryTracker, next: MemoryTracker) -> bool {
    ||| exists|address: usize, info: AllocationInfo|
        !holds_address(t.current_stats.active_allocations@, address) && #[trigger] t.added_into(
            address,
            info,
            next,
        )
    ||| exists|address: usize, r: Option<AllocationInfo>| #[trigger] t.removed_into(address, r, next)
}

/// Law of the allocation path: from empty statistics, along any interleaving
/// of additions without duplicate addresses and removals, the current usage
/// is the total size of the live entries and the number of live entries is
/// the allocation count less the free count.
pub proof fn lemma_interleaving_keeps_accounting(trackers: Seq<MemoryTracker>, k: int)
    requires
        trackers.len() > 0,
        trackers[0].current_stats.is_zeroed(),
        forall|j: int| 0 <= j < trackers.len() - 1 ==> #[trigger] ledger_step(trackers[j], trackers[j + 1]),
        0 <= k < trackers.len(),
    ensures
        trackers[k].current_stats.current_usage == total_size(
            trackers[k].current_stats.active_allocations@,
        ),
        trackers[k].current_stats.active_allocations@.len() == trackers[k].current_stats.allocation_count
            - trackers[k].current_stats.free_count,
    decreases k,
{
    if k > 0 {
        let j = k - 1;
        lemma_interleaving_keeps_accounting(trackers, j);
        assert(ledger_step(trackers[j], trackers[j + 1]));
        assert(j + 1 == k);
        let t = trackers[j];
        let next = trackers[k];
        if exists|address: usize, info: AllocationInfo|
            !holds_address(t.current_stats.active_allocations@, address) && #[trigger] t.added_into(
                address,
                info,
                next,
            ) {
            let (address, info) = choose|address: usize, info: AllocationInfo|
                !holds_address(t.current_stats.active_allocations@, address) && #[trigger] t.added_into(
                    address,
                    info,
                    next,
                );
            lemma_add_keeps_accounting(t, address, info, next);
        } else {
            let (address, r) = choose|address: usize, r: Option<AllocationInfo>| #[trigger] t.removed_into(address, r, next);
            lemma_remove_keeps_accounting(t, address, r, next);
        }
    }
}

} // verus!
