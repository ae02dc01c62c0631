use vstd::prelude::*;

use crate::model::{total_size, AllocationInfo, LeakSummary, MemoryStats};

verus! {

/// Adds one allocation of `size` to groups ordered by size, largest first:
/// the group of that size counts one more, or a new group of one is placed
/// where the order keeps.
pub open spec fn insert_group(groups: Seq<(usize, usize)>, size: usize) -> Seq<(usize, usize)>
    decreases groups.len(),
{
    if groups.len() == 0 {
        seq![(size, 1usize)]
    } else if groups[0].0 == size {
        seq![(size, (groups[0].1 + 1) as usize)] + groups.skip(1)
    } else if groups[0].0 < size {
        seq![(size, 1usize)] + groups
    } else {
        seq![groups[0]] + insert_group(groups.skip(1), size)
    }
}

/// The ledger's entries grouped by size: `(size, count)` pairs, largest size
/// first, one pair per distinct size.
pub open spec fn size_groups(entries: Seq<(usize, AllocationInfo)>) -> Seq<(usize, usize)>
    decreases entries.len(),
{
    if entries.len() == 0 {
        Seq::empty()
    } else {
        insert_group(size_groups(entries.drop_last()), entries.last().1.size)
    }
}

/// The largest size in the ledger, or `None` when it is empty.
pub open spec fn largest_size(entries: Seq<(usize, AllocationInfo)>) -> Option<usize>
    decreases entries.len(),
{
    if entries.len() == 0 {
        None
    } else {
        let s = entries.last().1.size;
        match largest_size(entries.drop_last()) {
            None => Some(s),
            Some(m) => Some(if s > m { s } else { m }),
        }
    }
}

/// Sum of the counts of a grouping.
pub open spec fn group_count_sum(groups: Seq<(usize, usize)>) -> int
    decreases groups.len(),
{
    if groups.len() == 0 {
        0
    } else {
        groups[0].1 + group_count_sum(groups.skip(1))
    }
}

/// Sum of `size * count` over a grouping.
pub open spec fn group_bytes_sum(groups: Seq<(usize, usize)>) -> int
    decreases groups.len(),
{
    if groups.len() == 0 {
        0
    } else {
        groups[0].0 * groups[0].1 + group_bytes_sum(groups.skip(1))
    }
}

/// Sizes strictly decrease along the grouping.
pub open spec fn strictly_descending(groups: Seq<(usize, usize)>) -> bool {
    forall|i: int, j: int| 0 <= i < j < groups.len() ==> #[trigger] groups[i].0 > #[trigger] groups[j].0
}

/// What the leak summary of a set of statistics is.
pub open spec fn is_leak_summary_of(r: LeakSummary, stats: MemoryStats) -> bool {
    &&& r.total_leaked_bytes == stats.current_usage
    &&& r.leak_count == stats.active_allocations@.len()
    &&& r.largest_leak == largest_size(stats.active_allocations@)
    &&& r.leaks_by_size@ == size_groups(stats.active_allocations@)
}

proof fn lemma_insert_group_sums(groups: Seq<(usize, usize)>, size: usize)
    requires
        forall|i: int| 0 <= i < groups.len() ==> (#[trigger] groups[i]).1 < usize::MAX,
    ensures
        group_count_sum(insert_group(groups, size)) == group_count_sum(groups) + 1,
        group_bytes_sum(insert_group(groups, size)) == group_bytes_sum(groups) + size,
    decreases groups.len(),
{
    let r = insert_group(groups, size);
    if groups.len() == 0 {
        assert(r.skip(1) =~= Seq::<(usize, usize)>::empty());
        assert(group_count_sum(r) == 1 + group_count_sum(r.skip(1)));
        assert(group_bytes_sum(r) == size * 1 + group_bytes_sum(r.skip(1)));
    } else if groups[0].0 == size {
        assert(groups[0].1 < usize::MAX);
        assert(r[0] == (size, (groups[0].1 + 1) as usize));
        assert(r.skip(1) =~= groups.skip(1));
        assert(size * (groups[0].1 + 1) == size * groups[0].1 + size) by (nonlinear_arith);
    } else if groups[0].0 < size {
        assert(r.skip(1) =~= groups);
        assert(r[0] == (size, 1usize));
    } else {
        assert(r.skip(1) =~= insert_group(groups.skip(1), size));
        assert(r[0] == groups[0]);
        lemma_insert_group_sums(groups.skip(1), size);
    }
}

proof fn lemma_insert_group_descending(groups: Seq<(usize, usize)>, size: usize)
    requires
        strictly_descending(groups),
    ensures
        strictly_descending(insert_group(groups, size)),
        insert_group(groups, size).len() > 0,
        insert_group(groups, size)[0].0 == size || (groups.len() > 0 && insert_group(groups, size)[0]
            == groups[0]),
    decreases groups.len(),
{
    if groups.len() > 0 && groups[0].0 > size {
        let rest = groups.skip(1);
        lemma_insert_group_descending(rest, size);
        let r = insert_group(groups, size);
        assert forall|i: int, j: int| 0 <= i < j < r.len() implies #[trigger] r[i].0 > #[trigger] r[j].0 by {
            if i > 0 {
                assert(r[i] == insert_group(rest, size)[i - 1]);
                assert(r[j] == insert_group(rest, size)[j - 1]);
            } else {
                assert(r[j] == insert_group(rest, size)[j - 1]);
                if j > 1 {
                    let q = insert_group(rest, size);
                    assert(q[0].0 == size || (rest.len() > 0 && q[0] == rest[0]));
                    assert(q[0].0 > q[j - 1].0);
                }
            }
        }
    } else if groups.len() > 0 && groups[0].0 == size {
        let r = insert_group(groups, size);
        assert forall|i: int, j: int| 0 <= i < j < r.len() implies #[trigger] r[i].0 > #[trigger] r[j].0 by {
            assert(r[j] == groups[j]);
            if i > 0 {
                assert(r[i] == groups[i]);
            }
        }
    } else {
        let r = insert_group(groups, size);
        assert forall|i: int, j: int| 0 <= i < j < r.len() implies #[trigger] r[i].0 > #[trigger] r[j].0 by {
            assert(r[j] == groups[j - 1]);
            if i > 0 {
                assert(r[i] == groups[i - 1]);
            } else if j > 1 {
                assert(groups[0].0 > groups[j - 1].0);
            }
        }
    }
}

/// Each count of the grouping is at most the number of entries.
proof fn lemma_size_groups_counts(entries: Seq<(usize, AllocationInfo)>)
    requires
        entries.len() <= usize::MAX,
    ensures
        forall|i: int|
            0 <= i < size_groups(entries).len() ==> (#[trigger] size_groups(entries)[i]).1
                <= entries.len(),
    decreases entries.len(),
{
    if entries.len() > 0 {
        let prev = entries.drop_last();
        lemma_size_groups_counts(prev);
        lemma_insert_group_counts(size_groups(prev), entries.last().1.size, prev.len());
    }
}

proof fn lemma_insert_group_counts(groups: Seq<(usize, usize)>, size: usize, bound: nat)
    requires
        bound < usize::MAX,
        forall|i: int| 0 <= i < groups.len() ==> (#[trigger] groups[i]).1 <= bound,
    ensures
        forall|i: int|
            0 <= i < insert_group(groups, size).len() ==> (#[trigger] insert_group(
                groups,
                size,
            )[i]).1 <= bound + 1,
    decreases groups.len(),
{
    if groups.len() > 0 {
        lemma_insert_group_counts(groups.skip(1), size, bound);
        let r = insert_group(groups, size);
        if groups[0].0 > size {
            assert forall|i: int| 0 <= i < r.len() implies (#[trigger] r[i]).1 <= bound + 1 by {
                if i > 0 {
                    assert(r[i] == insert_group(groups.skip(1), size)[i - 1]);
                }
            }
        }
    }
}

/// The leak summary's pairs count every live entry once, and weigh to the
/// ledger's total size.
pub proof fn lemma_size_groups_totals(entries: Seq<(usize, AllocationInfo)>)
    requires
        entries.len() <= usize::MAX,
    ensures
        group_count_sum(size_groups(entries)) == entries.len(),
        group_bytes_sum(size_groups(entries)) == total_size(entries),
        strictly_descending(size_groups(entries)),
    decreases entries.len(),
{
    if entries.len() > 0 {
        let prev = entries.drop_last();
        lemma_size_groups_totals(prev);
        lemma_size_groups_counts(prev);
        lemma_insert_group_sums(size_groups(prev), entries.last().1.size);
        lemma_insert_group_descending(size_groups(prev), entries.last().1.size);
    }
}

/// Number of ledger entries of size `size`.
pub open spec fn size_count(entries: Seq<(usize, AllocationInfo)>, size: usize) -> nat
    decreases entries.len(),
{
    if entries.len() == 0 {
        0
    } else {
        size_count(entries.drop_last(), size) + if entries.last().1.size == size {
            1nat
        } else {
            0nat
        }
    }
}

/// The count a grouping gives for `size`: that of the first pair of that
/// size, or zero.
pub open spec fn group_count_of(groups: Seq<(usize, usize)>, size: usize) -> nat
    decreases groups.len(),
{
    if groups.len() == 0 {
        0
    } else if groups[0].0 == size {
        groups[0].1 as nat
    } else {
        group_count_of(groups.skip(1), size)
    }
}

proof fn lemma_group_count_of_at(groups: Seq<(usize, usize)>, i: int)
    requires
        strictly_descending(groups),
        0 <= i < groups.len(),
    ensures
        group_count_of(groups, groups[i].0) == groups[i].1,
    decreases groups.len(),
{
    if i > 0 {
        assert(groups[0].0 > groups[i].0);
        let rest = groups.skip(1);
        assert(rest[i - 1] == groups[i]);
        assert(strictly_descending(rest)) by {
            assert forall|a: int, b: int| 0 <= a < b < rest.len() implies #[trigger] rest[a].0
                > #[trigger] rest[b].0 by {
                assert(groups[a + 1].0 > groups[b + 1].0);
            }
        }
        lemma_group_count_of_at(rest, i - 1);
    }
}

proof fn lemma_group_count_of_present(groups: Seq<(usize, usize)>, size: usize)
    requires
        group_count_of(groups, size) > 0,
    ensures
        exists|i: int| 0 <= i < groups.len() && (#[trigger] groups[i]).0 == size,
    decreases groups.len(),
{
    if groups[0].0 != size {
        lemma_group_count_of_present(groups.skip(1), size);
        let i = choose|i: int| 0 <= i < groups.skip(1).len() && (#[trigger] groups.skip(1)[i]).0 == size;
        assert(groups[i + 1].0 == size);
    }
}

proof fn lemma_descending_skip(groups: Seq<(usize, usize)>)
    requires
        strictly_descending(groups),
        groups.len() > 0,
    ensures
        strictly_descending(groups.skip(1)),
        forall|i: int| 0 <= i < groups.skip(1).len() ==> (#[trigger] groups.skip(1)[i]).0 < groups[0].0,
{
    let rest = groups.skip(1);
    assert forall|a: int, b: int| 0 <= a < b < rest.len() implies #[trigger] rest[a].0
        > #[trigger] rest[b].0 by {
        assert(groups[a + 1].0 > groups[b + 1].0);
    }
    assert forall|i: int| 0 <= i < rest.len() implies (#[trigger] rest[i]).0 < groups[0].0 by {
        assert(groups[0].0 > groups[i + 1].0);
    }
}

proof fn lemma_group_count_of_absent(groups: Seq<(usize, usize)>, t: usize)
    requires
        forall|i: int| 0 <= i < groups.len() ==> (#[trigger] groups[i]).0 != t,
    ensures
        group_count_of(groups, t) == 0,
    decreases groups.len(),
{
    if groups.len() > 0 {
        assert(groups[0].0 != t);
        let rest = groups.skip(1);
        assert forall|i: int| 0 <= i < rest.len() implies (#[trigger] rest[i]).0 != t by {
            assert(rest[i] == groups[i + 1]);
        }
        lemma_group_count_of_absent(rest, t);
    }
}

proof fn lemma_insert_group_count_of(groups: Seq<(usize, usize)>, size: usize, t: usize)
    requires
        strictly_descending(groups),
        forall|i: int| 0 <= i < groups.len() ==> (#[trigger] groups[i]).1 < usize::MAX,
    ensures
        group_count_of(insert_group(groups, size), t) == group_count_of(groups, t) + if t == size {
            1nat
        } else {
            0nat
        },
    decreases groups.len(),
{
    let r = insert_group(groups, size);
    if groups.len() == 0 {
        assert(r[0] == (size, 1usize));
        assert(r.skip(1).len() == 0);
        assert(group_count_of(r.skip(1), t) == 0);
    } else if groups[0].0 == size {
        assert(groups[0].1 < usize::MAX);
        assert(r[0] == (size, (groups[0].1 + 1) as usize));
        assert(r.skip(1) =~= groups.skip(1));
    } else if groups[0].0 < size {
        assert(r[0] == (size, 1usize));
        assert(r.skip(1) =~= groups);
        assert(t != size ==> group_count_of(r, t) == group_count_of(groups, t));
        if t == size {
            assert forall|i: int| 0 <= i < groups.len() implies (#[trigger] groups[i]).0 != t by {
                if i > 0 {
                    assert(groups[0].0 > groups[i].0);
                }
            }
            lemma_group_count_of_absent(groups, t);
        }
    } else {
        assert(r[0] == groups[0]);
        assert(r.skip(1) =~= insert_group(groups.skip(1), size));
        lemma_descending_skip(groups);
        lemma_insert_group_count_of(groups.skip(1), size, t);
    }
}

proof fn lemma_size_groups_count_of(entries: Seq<(usize, AllocationInfo)>, t: usize)
    requires
        entries.len() <= usize::MAX,
    ensures
        group_count_of(size_groups(entries), t) == size_count(entries, t),
    decreases entries.len(),
{
    if entries.len() > 0 {
        let prev = entries.drop_last();
        lemma_size_groups_count_of(prev, t);
        lemma_size_groups_counts(prev);
        lemma_size_groups_totals(prev);
        lemma_insert_group_count_of(size_groups(prev), entries.last().1.size, t);
    }
}

proof fn lemma_size_count_member(entries: Seq<(usize, AllocationInfo)>, k: int)
    requires
        0 <= k < entries.len(),
    ensures
        size_count(entries, entries[k].1.size) > 0,
    decreases entries.len(),
{
    if k < entries.len() - 1 {
        lemma_size_count_member(entries.drop_last(), k);
    }
}

/// The grouping by size, stated directly: sizes strictly decrease, each
/// pair counts the ledger entries of its size, and every size in the ledger
/// has its pair.
pub proof fn lemma_size_groups_characterized(entries: Seq<(usize, AllocationInfo)>)
    requires
        entries.len() <= usize::MAX,
    ensures
        strictly_descending(size_groups(entries)),
        forall|i: int|
            0 <= i < size_groups(entries).len() ==> (#[trigger] size_groups(entries)[i]).1
                == size_count(entries, size_groups(entries)[i].0),
        forall|k: int|
            0 <= k < entries.len() ==> exists|i: int|
                0 <= i < size_groups(entries).len() && (#[trigger] size_groups(entries)[i]).0
                    == (#[trigger] entries[k]).1.size,
{
    let g = size_groups(entries);
    lemma_size_groups_totals(entries);
    assert forall|i: int| 0 <= i < g.len() implies (#[trigger] g[i]).1 == size_count(entries, g[i].0) by {
        lemma_group_count_of_at(g, i);
        lemma_size_groups_count_of(entries, g[i].0);
    }
    assert forall|k: int| 0 <= k < entries.len() implies exists|i: int|
        0 <= i < g.len() && (#[trigger] g[i]).0 == (#[trigger] entries[k]).1.size by {
        lemma_size_count_member(entries, k);
        lemma_size_groups_count_of(entries, entries[k].1.size);
        lemma_group_count_of_present(g, entries[k].1.size);
    }
}

/// Law of the leak summary: the counts of `leaks_by_size` add up to
/// `leak_count`, its sizes strictly decrease, each pair counts the live
/// entries of its size, every live size has its pair, and where the counters agree
/// with the ledger the sum of `size * count` is `total_leaked_bytes`.
pub proof fn lemma_leak_summary_totals(r: LeakSummary, stats: MemoryStats)
    requires
        is_leak_summary_of(r, stats),
    ensures
        group_count_sum(r.leaks_by_size@) == r.leak_count,
        strictly_descending(r.leaks_by_size@),
        forall|i: int|
            0 <= i < r.leaks_by_size@.len() ==> (#[trigger] r.leaks_by_size@[i]).1 == size_count(
                stats.active_allocations@,
                r.leaks_by_size@[i].0,
            ),
        forall|k: int|
            0 <= k < stats.active_allocations@.len() ==> exists|i: int|
                0 <= i < r.leaks_by_size@.len() && (#[trigger] r.leaks_by_size@[i]).0
                    == (#[trigger] stats.active_allocations@[k]).1.size,
        stats.current_usage == total_size(stats.active_allocations@) ==> group_bytes_sum(
            r.leaks_by_size@,
        ) == r.total_leaked_bytes,
{
    lemma_size_groups_totals(stats.active_allocations@);
    lemma_size_groups_characterized(stats.active_allocations@);
}

/// Law of the leak summary: it depends on the statistics alone, so equal
/// statistics give equal summaries.
pub proof fn lemma_leak_summary_deterministic(a: LeakSummary, b: LeakSummary, stats: MemoryStats)
    requires
        is_leak_summary_of(a, stats),
        is_leak_summary_of(b, stats),
    ensures
        a.total_leaked_bytes == b.total_leaked_bytes,
        a.leak_count == b.leak_count,
        a.largest_leak == b.largest_leak,
        a.leaks_by_size@ == b.leaks_by_size@,
{
}

/// Where the first group not larger than `size` sits decides how the grouping
/// changes.
proof fn lemma_insert_group_at(groups: Seq<(usize, usize)>, size: usize, j: int)
    requires
        0 <= j <= groups.len(),
        forall|t: int| 0 <= t < j ==> (#[trigger] groups[t]).0 > size,
        j < groups.len() ==> groups[j].0 <= size,
    ensures
        insert_group(groups, size) == if j < groups.len() && groups[j].0 == size {
            groups.update(j, (size, (groups[j].1 + 1) as usize))
        } else {
            groups.insert(j, (size, 1usize))
        },
    decreases j,
{
    if j == 0 {
        if groups.len() > 0 && groups[0].0 == size {
            assert(seq![(size, (groups[0].1 + 1) as usize)] + groups.skip(1) =~= groups.update(
                0,
                (size, (groups[0].1 + 1) as usize),
            ));
        } else {
            assert(seq![(size, 1usize)] + groups =~= groups.insert(0, (size, 1usize)));
            if groups.len() == 0 {
                assert(seq![(size, 1usize)] =~= groups.insert(0, (size, 1usize)));
            }
        }
    } else {
        let rest = groups.skip(1);
        lemma_insert_group_at(rest, size, j - 1);
        if j < groups.len() && groups[j].0 == size {
            assert(seq![groups[0]] + rest.update(j - 1, (size, (groups[j].1 + 1) as usize))
                =~= groups.update(j, (size, (groups[j].1 + 1) as usize)));
        } else {
            assert(seq![groups[0]] + rest.insert(j - 1, (size, 1usize)) =~= groups.insert(
                j,
                (size, 1usize),
            ));
        }
    }
}

/// Derives the leak summary of a set of statistics: the current usage as the
/// leaked bytes, the live entries as leaks, the largest of them, and the
/// entries grouped by size, largest first.
pub fn calculate_leak_summary(stats: &MemoryStats) -> (r: LeakSummary)
    ensures
        is_leak_summary_of(r, *stats),
{
    let entries = &stats.active_allocations;
    let mut groups: Vec<(usize, usize)> = Vec::new();
    let mut largest: Option<usize> = None;
    let mut i: usize = 0;
    while i < entries.len()
        invariant
            i <= entries@.len(),
            groups@ == size_groups(entries@.take(i as int)),
            largest == largest_size(entries@.take(i as int)),
        decreases entries@.len() - i,
    {
        let ghost prefix = entries@.take(i as int);
        assert(entries@.take(i + 1).drop_last() =~= prefix);
        proof {
            lemma_size_groups_counts(prefix);
            lemma_size_groups_totals(prefix);
        }
        let size = entries[i].1.size;
        largest = match largest {
            None => Some(size),
            Some(m) => Some(if size > m { size } else { m }),
        };
        let mut j: usize = 0;
        while j < groups.len() && groups[j].0 > size
            invariant
                j <= groups@.len(),
                forall|t: int| 0 <= t < j ==> (#[trigger] groups@[t]).0 > size,
            decreases groups@.len() - j,
        {
            j = j + 1;
        }
        proof {
            lemma_insert_group_at(groups@, size, j as int);
        }
        if j < groups.len() && groups[j].0 == size {
            let count = groups[j].1;
            groups.set(j, (size, count + 1));
        } else {
            groups.insert(j, (size, 1));
        }
        i = i + 1;
    }
    assert(entries@.take(entries@.len() as int) =~= entries@);
    LeakSummary {
        total_leaked_bytes: stats.current_usage,
        leak_count: entries.len(),
        largest_leak: largest,
        leaks_by_size: groups,
    }
}

/// `picks` lists distinct ledger positions, largest size first, and no
/// position left out holds a larger size than the last one listed.
pub open spec fn is_largest_selection(entries: Seq<(usize, AllocationInfo)>, picks: Seq<usize>) -> bool {
    &&& forall|a: int| 0 <= a < picks.len() ==> (#[trigger] picks[a]) < entries.len()
    &&& forall|a: int, b: int| 0 <= a < b < picks.len() ==> #[trigger] picks[a] != #[trigger] picks[b]
    &&& forall|a: int, b: int|
        0 <= a < b < picks.len() ==> #[trigger] entries[picks[a] as int].1.size >= #[trigger] entries[picks[b] as int].1.size
    &&& picks.len() > 0 ==> forall|j: int|
        0 <= j < entries.len() && !picks.contains(j as usize) ==> #[trigger] entries[j].1.size
            <= entries[picks.last() as int].1.size
}

/// Positions in the ledger of its `limit` largest allocations (all of them
/// when there are fewer), largest first.
pub fn largest_allocations(stats: &MemoryStats, limit: usize) -> (r: Vec<usize>)
    ensures
        r@.len() == if limit <= stats.active_allocations@.len() {
            limit as int
        } else {
            stats.active_allocations@.len() as int
        },
        is_largest_selection(stats.active_allocations@, r@),
{
    let entries = &stats.active_allocations;
    let n = entries.len();
    let mut taken: Vec<bool> = Vec::new();
    let mut t: usize = 0;
    while t < n
        invariant
            t <= n,
            n == entries@.len(),
            taken@.len() == t,
            forall|j: int| 0 <= j < t ==> !(#[trigger] taken@[j]),
            untaken_count(taken@) == t,
        decreases n - t,
    {
        let ghost prev = taken@;
        taken.push(false);
        assert(taken@.drop_last() =~= prev);
        t = t + 1;
    }
    let mut picks: Vec<usize> = Vec::new();
    while picks.len() < limit && picks.len() < n
        invariant
            n == entries@.len(),
            taken@.len() == n,
            picks@.len() <= n,
            picks@.len() <= limit,
            forall|j: int| 0 <= j < n ==> (#[trigger] taken@[j] <==> picks@.contains(j as usize)),
            is_largest_selection(entries@, picks@),
            untaken_count(taken@) == n - picks@.len(),
        decreases n - picks@.len(),
    {
        proof {
            lemma_untaken_exists(taken@);
        }
        let mut best: usize = n;
        let mut j: usize = 0;
        while j < n
            invariant
                n == entries@.len(),
                taken@.len() == n,
                j <= n,
                best == n || (best < j && !taken@[best as int]),
                best == n ==> forall|k: int| 0 <= k < j ==> #[trigger] taken@[k],
                best < n ==> forall|k: int|
                    0 <= k < j && !taken@[k] ==> #[trigger] entries@[k].1.size
                        <= entries@[best as int].1.size,
            decreases n - j,
        {
            if !taken[j] && (best == n || entries[j].1.size > entries[best].1.size) {
                best = j;
            }
            j = j + 1;
        }
        let ghost before = picks@;
        proof {
            lemma_untaken_take(taken@, best as int);
        }
        taken.set(best, true);
        picks.push(best);
        proof {
            assert forall|k: int| 0 <= k < n implies (#[trigger] taken@[k] <==> picks@.contains(k as usize)) by {
                if k != best {
                    assert(picks@.contains(k as usize) ==> before.contains(k as usize)) by {
                        if picks@.contains(k as usize) {
                            let w = choose|w: int| 0 <= w < picks@.len() && picks@[w] == k as usize;
                            assert(w < before.len());
                            assert(before[w] == k as usize);
                        }
                    }
                    if before.contains(k as usize) {
                        let w = choose|w: int| 0 <= w < before.len() && before[w] == k as usize;
                        assert(picks@[w] == k as usize);
                    }
                } else {
                    assert(picks@[picks@.len() - 1] == best);
                }
            }
            assert forall|a: int, b: int| 0 <= a < b < picks@.len() implies #[trigger] picks@[a]
                != #[trigger] picks@[b] by {
                if b == picks@.len() - 1 {
                    assert(before[a] == picks@[a]);
                    assert(before.contains(picks@[a]));
                }
            }
            assert forall|a: int, b: int| 0 <= a < b < picks@.len() implies #[trigger] entries@[picks@[a] as int].1.size
                >= #[trigger] entries@[picks@[b] as int].1.size by {
                if b == picks@.len() - 1 {
                    let last = before.last();
                    assert(!before.contains(best));
                    if a < before.len() - 1 {
                        assert(entries@[before[a] as int].1.size >= entries@[last as int].1.size);
                    }
                }
            }
            assert forall|k: int| 0 <= k < entries@.len() && !picks@.contains(k as usize) implies #[trigger] entries@[k].1.size
                <= entries@[picks@.last() as int].1.size by {
                assert(!before.contains(k as usize)) by {
                    if before.contains(k as usize) {
                        let w = choose|w: int| 0 <= w < before.len() && before[w] == k as usize;
                        assert(picks@[w] == k as usize);
                    }
                }
            }
        }
    }
    picks
}

/// Number of positions not yet taken.
pub open spec fn untaken_count(taken: Seq<bool>) -> nat
    decreases taken.len(),
{
    if taken.len() == 0 {
        0
    } else {
        untaken_count(taken.drop_last()) + if taken.last() {
            0nat
        } else {
            1nat
        }
    }
}

proof fn lemma_untaken_exists(taken: Seq<bool>)
    requires
        untaken_count(taken) > 0,
    ensures
        exists|j: int| 0 <= j < taken.len() && !(#[trigger] taken[j]),
    decreases taken.len(),
{
    if taken.last() {
        lemma_untaken_exists(taken.drop_last());
        let j = choose|j: int| 0 <= j < taken.drop_last().len() && !(#[trigger] taken.drop_last()[j]);
        assert(!taken[j]);
    } else {
        assert(!taken[taken.len() - 1]);
    }
}

proof fn lemma_untaken_take(taken: Seq<bool>, i: int)
    requires
        0 <= i < taken.len(),
        !taken[i],
    ensures
        untaken_count(taken.update(i, true)) + 1 == untaken_count(taken),
    decreases taken.len(),
{
    if i == taken.len() - 1 {
        assert(taken.update(i, true).drop_last() =~= taken.drop_last());
    } else {
        lemma_untaken_take(taken.drop_last(), i);
        assert(taken.update(i, true).drop_last() =~= taken.drop_last().update(i, true));
    }
}

} // verus!
