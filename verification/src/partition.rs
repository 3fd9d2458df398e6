use vstd::prelude::*;

verus! {

/// The most workers one compositing pass may use.
pub const MAX_THREAD_CAPACITY: u32 = 8;

/// A contiguous slice of the ordered glyph workload assigned to one worker.
///
/// `start` is the index of the first glyph of the slice and `work_unit` the
/// number of glyphs it holds. A partition of a workload into such slices
/// covers `[0, total)` exactly once.
#[derive(Copy, Clone)]
pub struct ThreadMetadata {
    pub start: u32,
    pub work_unit: u32,
}

impl ThreadMetadata {
    /// The half-open index range `[start, start + work_unit)` of this slice.
    pub fn get_slice_offsets(&self) -> (r: (usize, usize))
        requires
            self.start + self.work_unit <= u32::MAX,
        ensures
            r.0 == self.start,
            r.1 == self.start + self.work_unit,
    {
        (self.start as usize, (self.start + self.work_unit) as usize)
    }
}

/// The worker count actually used for a workload of `total` glyphs when
/// `requested` workers are asked for: clamped to the capacity constant and to
/// `total`, never zero unless the workload is empty.
pub open spec fn clamped_thread_count(total: u32, requested: u32) -> int {
    if total == 0 {
        0
    } else {
        let req: int = if requested == 0 {
            1
        } else {
            requested as int
        };
        let capped: int = if req <= MAX_THREAD_CAPACITY {
            req
        } else {
            MAX_THREAD_CAPACITY as int
        };
        if capped <= total {
            capped
        } else {
            total as int
        }
    }
}

/// The size of every slice but the last.
pub open spec fn slice_base(total: u32, requested: u32) -> int {
    total as int / clamped_thread_count(total, requested)
}

/// Splits `[0, total)` into contiguous slices, one per worker.
///
/// Every slice but the last holds `total / count` glyphs; the last absorbs
/// the remainder of the integer division, so it may be larger than the others
/// by up to `count - 1` glyphs. The slices cover `[0, total)` exactly once,
/// in ascending order.
pub fn partition_workload(total: u32, requested: u32) -> (r: Vec<ThreadMetadata>)
    ensures
        r@.len() == clamped_thread_count(total, requested),
        r@.len() <= MAX_THREAD_CAPACITY,
        r@.len() <= total,
        total >= 1 ==> r@.len() >= 1,
        forall|i: int|
            0 <= i < r@.len() ==> (#[trigger] r@[i]).start == i * slice_base(total, requested),
        forall|i: int|
            0 <= i < r@.len() - 1 ==> (#[trigger] r@[i]).work_unit == slice_base(
                total,
                requested,
            ),
        r@.len() >= 1 ==> r@[r@.len() - 1].work_unit == total - (r@.len() - 1) * slice_base(
            total,
            requested,
        ),
        r@.len() >= 1 ==> r@[r@.len() - 1].work_unit >= slice_base(total, requested),
        r@.len() >= 1 ==> r@[r@.len() - 1].work_unit <= slice_base(total, requested) + r@.len()
            - 1,
        forall|i: int| 0 <= i < r@.len() ==> (#[trigger] r@[i]).work_unit >= 1,
        forall|i: int|
            0 <= i < r@.len() - 1 ==> #[trigger] (r@[i].start + r@[i].work_unit) == r@[i
                + 1].start,
        r@.len() >= 1 ==> r@[0].start == 0,
        r@.len() >= 1 ==> r@[r@.len() - 1].start + r@[r@.len() - 1].work_unit == total,
        forall|i: int|
            0 <= i < r@.len() ==> #[trigger] (r@[i].start + r@[i].work_unit) <= total,
{
    if total == 0 {
        let r: Vec<ThreadMetadata> = Vec::new();
        return r;
    }
    let req: u32 = if requested == 0 {
        1
    } else {
        requested
    };
    let capped: u32 = if req <= MAX_THREAD_CAPACITY {
        req
    } else {
        MAX_THREAD_CAPACITY
    };
    let count: u32 = if capped <= total {
        capped
    } else {
        total
    };
    let base: u32 = total / count;
    proof {
        assert(count == clamped_thread_count(total, requested));
        assert(base == slice_base(total, requested));
        assert(base >= 1 && base * count <= total && total < base * count + count)
            by (nonlinear_arith)
            requires
                1 <= count <= total,
                base == total as int / count as int,
        ;
    }
    let mut r: Vec<ThreadMetadata> = Vec::new();
    let last: u32 = count - 1;
    let mut i: u32 = 0;
    while i < last
        invariant
            0 <= i <= last,
            last == count - 1,
            1 <= count <= total,
            base == slice_base(total, requested),
            count == clamped_thread_count(total, requested),
            base >= 1,
            base * count <= total,
            r@.len() == i,
            forall|j: int| 0 <= j < i ==> r@[j].start == j * base,
            forall|j: int| 0 <= j < i ==> r@[j].work_unit == base,
        decreases last - i,
    {
        proof {
            assert(i * base + base == (i + 1) * base) by (nonlinear_arith);
            assert((i + 1) * base <= count * base) by (nonlinear_arith)
                requires
                    i + 1 <= count,
                    base >= 0,
            ;
        }
        r.push(ThreadMetadata { start: i * base, work_unit: base });
        i = i + 1;
    }
    proof {
        assert(last * base + base == count * base) by (nonlinear_arith)
            requires
                last + 1 == count,
        ;
        assert(base * last == last * base) by (nonlinear_arith);
        assert(count * base == base * count) by (nonlinear_arith);
        assert(base * last <= total - base);
    }
    let last_start: u32 = base * last;
    r.push(ThreadMetadata { start: last_start, work_unit: total - last_start });
    proof {
        let s = r@;
        assert(s[0].start == 0) by {
            if count == 1 {
                assert(s[0].start == base * last);
                assert(base * 0 == 0) by (nonlinear_arith);
            } else {
                assert(s[0].start == 0 * base);
                assert(0 * base == 0) by (nonlinear_arith);
            }
        }
        assert forall|j: int| 0 <= j < s.len() implies s[j].work_unit >= 1 by {
            if j < s.len() - 1 {
            } else {
                assert(last * base <= total - base);
            }
        }
        assert forall|j: int|
            0 <= j < s.len() - 1 implies #[trigger] (s[j].start + s[j].work_unit) == s[j
            + 1].start by {
            assert(j * base + base == (j + 1) * base) by (nonlinear_arith);
        }
        assert forall|j: int|
            0 <= j < s.len() implies #[trigger] (s[j].start + s[j].work_unit) <= total by {
            if j < s.len() - 1 {
                assert(j * base + base == (j + 1) * base) by (nonlinear_arith);
                assert((j + 1) * base <= count * base) by (nonlinear_arith)
                    requires
                        j + 1 <= count,
                        base >= 0,
                ;
            }
        }
    }
    r
}

/// Coverage of a partition: every index of `[0, total)` lies in exactly one
/// slice, the slices are pairwise disjoint, and their starts ascend.
///
/// This holds of every partition `partition_workload` returns, for any
/// workload of at least one glyph and any requested worker count.
pub proof fn lemma_partition_covers(r: Seq<ThreadMetadata>, total: u32)
    requires
        r.len() >= 1,
        r[0].start == 0,
        forall|i: int|
            0 <= i < r.len() - 1 ==> #[trigger] (r[i].start + r[i].work_unit) == r[i + 1].start,
        r[r.len() - 1].start + r[r.len() - 1].work_unit == total,
        forall|i: int| 0 <= i < r.len() ==> r[i].work_unit >= 1,
    ensures
        forall|k: int| 0 <= k < total ==> #[trigger] covered_by_some_slice(r, k),
        forall|i: int, j: int|
            0 <= i < j < r.len() ==> r[i].start + r[i].work_unit <= r[j].start,
        forall|i: int, j: int| 0 <= i < j < r.len() ==> r[i].start < r[j].start,
    decreases r.len(),
{
    assert forall|i: int, j: int|
        0 <= i < j < r.len() implies r[i].start + r[i].work_unit <= r[j].start by {
        lemma_starts_ascend(r, i, j);
    }
    assert forall|i: int, j: int| 0 <= i < j < r.len() implies r[i].start < r[j].start by {
        lemma_starts_ascend(r, i, j);
    }
    assert forall|k: int| 0 <= k < total implies #[trigger] covered_by_some_slice(r, k) by {
        lemma_index_covered(r, total as int, k);
    }
}

/// Whether index `k` lies in slice `s`.
pub open spec fn slice_contains(s: ThreadMetadata, k: int) -> bool {
    s.start <= k < s.start + s.work_unit
}

/// Whether some slice of the partition contains index `k`.
pub open spec fn covered_by_some_slice(r: Seq<ThreadMetadata>, k: int) -> bool {
    exists|i: int| 0 <= i < r.len() && #[trigger] slice_contains(r[i], k)
}

proof fn lemma_starts_ascend(r: Seq<ThreadMetadata>, i: int, j: int)
    requires
        0 <= i < j < r.len(),
        forall|m: int|
            0 <= m < r.len() - 1 ==> #[trigger] (r[m].start + r[m].work_unit) == r[m + 1].start,
        forall|m: int| 0 <= m < r.len() ==> r[m].work_unit >= 1,
    ensures
        r[i].start + r[i].work_unit <= r[j].start,
        r[i].start < r[j].start,
    decreases j - i,
{
    if j == i + 1 {
        assert(r[i].start + r[i].work_unit == r[j].start);
    } else {
        lemma_starts_ascend(r, i + 1, j);
        assert(r[i].start + r[i].work_unit == r[i + 1].start);
    }
}

proof fn lemma_index_covered(r: Seq<ThreadMetadata>, bound: int, k: int)
    requires
        r.len() >= 1,
        r[0].start == 0,
        forall|i: int|
            0 <= i < r.len() - 1 ==> #[trigger] (r[i].start + r[i].work_unit) == r[i + 1].start,
        r[r.len() - 1].start + r[r.len() - 1].work_unit == bound,
        0 <= k < bound,
    ensures
        covered_by_some_slice(r, k),
    decreases r.len(),
{
    let n = r.len() as int;
    if slice_contains(r[n - 1], k) {
        assert(covered_by_some_slice(r, k));
    } else {
        assert(k < r[n - 1].start);
        assert(n >= 2) by {
            if n == 1 {
                assert(r[0].start == 0);
            }
        }
        let head = r.drop_last();
        assert(head.len() == n - 1);
        assert(forall|i: int| 0 <= i < head.len() ==> head[i] == r[i]);
        assert(head[head.len() - 1].start + head[head.len() - 1].work_unit == r[n - 1].start);
        lemma_index_covered(head, r[n - 1].start as int, k);
        let i = choose|i: int| 0 <= i < head.len() && #[trigger] slice_contains(head[i], k);
        assert(slice_contains(r[i], k));
        assert(covered_by_some_slice(r, k));
    }
}

} // verus!
