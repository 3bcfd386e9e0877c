//! The regions of an allocator as contracts see them: an ordered list that
//! tiles the buffer, what freeing does to it, and the laws that follow.

use vstd::prelude::*;
use crate::allocator::{BufferAllocation, BufferAllocationID};

verus! {

/// A region as contracts see it: its key and where it lies.
pub ghost struct Region {
    pub id: Seq<char>,
    pub offset: nat,
    pub size: nat,
}

impl Region {
    /// The first position behind the region.
    pub open spec fn end(self) -> nat {
        self.offset + self.size
    }

    /// The region moved left by `by` when it starts behind `pivot`.
    pub open spec fn compacted(self, pivot: nat, by: nat) -> Region {
        if self.offset > pivot {
            Region { offset: (self.offset - by) as nat, ..self }
        } else {
            self
        }
    }
}

/// Whether a region with the key `id` is among `regions`.
pub open spec fn live(regions: Seq<Region>, id: Seq<char>) -> bool {
    exists|i: int| 0 <= i < regions.len() && #[trigger] regions[i].id == id
}

/// The place of the region with the key `id` among `regions`.
pub open spec fn position(regions: Seq<Region>, id: Seq<char>) -> int {
    choose|i: int| 0 <= i < regions.len() && #[trigger] regions[i].id == id
}

/// No two regions share a key.
pub open spec fn distinct_ids(regions: Seq<Region>) -> bool {
    forall|i: int, j: int|
        0 <= i < regions.len() && 0 <= j < regions.len() && i != j ==> #[trigger] regions[i].id
            != #[trigger] regions[j].id
}

/// The regions lie one behind the other, without gaps, from 0 to `total`.
pub open spec fn tiling(regions: Seq<Region>, total: nat) -> bool {
    &&& regions.len() == 0 ==> total == 0
    &&& regions.len() > 0 ==> regions[0].offset == 0 && regions.last().end() == total
    &&& forall|i: int, j: int|
        0 <= i && j == i + 1 && j < regions.len() ==> (#[trigger] regions[i]).end()
            == (#[trigger] regions[j]).offset
}

/// Whether two regions share no position.
pub open spec fn disjoint(a: Region, b: Region) -> bool {
    a.end() <= b.offset || b.end() <= a.offset
}

/// The sizes of `regions` added up.
pub open spec fn sum_sizes(regions: Seq<Region>) -> nat
    decreases regions.len(),
{
    if regions.len() == 0 {
        0
    } else {
        sum_sizes(regions.drop_last()) + regions.last().size
    }
}

/// What is left of `regions` when the region at `k` is taken out and every
/// region behind it moves left by its size.
pub open spec fn without(regions: Seq<Region>, k: int) -> Seq<Region>
    recommends
        0 <= k < regions.len(),
{
    regions.remove(k).map_values(|r: Region| r.compacted(regions[k].offset, regions[k].size))
}

/// The regions once the one with the key `id` is freed, if there is one.
pub open spec fn freed(regions: Seq<Region>, id: Seq<char>) -> Seq<Region> {
    if live(regions, id) {
        without(regions, position(regions, id))
    } else {
        regions
    }
}

/// The regions once the keys `ids` were freed one after the other.
pub open spec fn freed_all(regions: Seq<Region>, ids: Seq<Seq<char>>) -> Seq<Region>
    decreases ids.len(),
{
    if ids.len() == 0 {
        regions
    } else {
        freed(freed_all(regions, ids.drop_last()), ids.last())
    }
}

/// Where the regions lay that freeing the keys `ids` one after the other
/// gave up, in that order. A key without a live region gives up nothing.
pub open spec fn given_up(regions: Seq<Region>, ids: Seq<Seq<char>>) -> Seq<BufferAllocation>
    decreases ids.len(),
{
    if ids.len() == 0 {
        Seq::empty()
    } else {
        let before = freed_all(regions, ids.drop_last());
        let earlier = given_up(regions, ids.drop_last());
        if live(before, ids.last()) {
            let region = before[position(before, ids.last())];
            earlier.push(
                BufferAllocation { offset: region.offset as usize, size: region.size as usize },
            )
        } else {
            earlier
        }
    }
}

/// The sizes of `freed` added up.
pub open spec fn sum_freed(freed: Seq<BufferAllocation>) -> nat
    decreases freed.len(),
{
    if freed.len() == 0 {
        0
    } else {
        sum_freed(freed.drop_last()) + freed.last().size as nat
    }
}

/// The keys as contracts see them.
pub open spec fn keys(ids: Seq<BufferAllocationID>) -> Seq<Seq<char>> {
    Seq::new(ids.len(), |i: int| ids[i]@)
}

/// In a tiling an earlier region ends where a later one starts, or before.
pub proof fn lemma_tiling_ordered(regions: Seq<Region>, total: nat, i: int, j: int)
    requires
        tiling(regions, total),
        0 <= i < j < regions.len(),
    ensures
        regions[i].end() <= regions[j].offset,
        regions[j].end() <= total,
    decreases regions.len() - i,
{
    if j < regions.len() - 1 {
        lemma_tiling_ordered(regions, total, j, regions.len() - 1);
    }
    if i + 1 < j {
        lemma_tiling_ordered(regions, total, i + 1, j);
        assert(regions[i].end() == regions[i + 1].offset);
    } else {
        assert(regions[i].end() == regions[i + 1].offset);
    }
}

/// In a tiling every region ends at the total or before.
pub proof fn lemma_tiling_end_bound(regions: Seq<Region>, total: nat, i: int)
    requires
        tiling(regions, total),
        0 <= i < regions.len(),
    ensures
        regions[i].end() <= total,
{
    if i < regions.len() - 1 {
        lemma_tiling_ordered(regions, total, i, regions.len() - 1);
    }
}

/// Once the region at `k` is taken out of a tiling, whatever starts behind
/// its start starts at its end or behind.
pub proof fn lemma_behind(regions: Seq<Region>, total: nat, k: int)
    requires
        tiling(regions, total),
        0 <= k < regions.len(),
    ensures
        forall|i: int|
            0 <= i < regions.remove(k).len() && (#[trigger] regions.remove(k)[i]).offset
                > regions[k].offset ==> regions.remove(k)[i].offset >= regions[k].end(),
{
    let cut = regions.remove(k);
    assert forall|i: int|
        0 <= i < cut.len() && (#[trigger] cut[i]).offset > regions[k].offset implies cut[i].offset
        >= regions[k].end() by {
        if i < k {
            assert(cut[i] == regions[i]);
            lemma_tiling_ordered(regions, total, i, k);
        } else {
            assert(cut[i] == regions[i + 1]);
            lemma_tiling_ordered(regions, total, k, i + 1);
        }
    }
}

/// Where each region lies once the region at `k` is taken out: those before
/// it stay, those behind it lie left by its size.
#[verifier::rlimit(40)]
pub proof fn lemma_without(regions: Seq<Region>, total: nat, k: int)
    requires
        tiling(regions, total),
        0 <= k < regions.len(),
    ensures
        without(regions, k).len() == regions.len() - 1,
        forall|i: int| 0 <= i < k ==> #[trigger] without(regions, k)[i] == regions[i],
        forall|i: int|
            k <= i < regions.len() - 1 ==> #[trigger] without(regions, k)[i] == (Region {
                offset: (regions[i + 1].offset - regions[k].size) as nat,
                ..regions[i + 1]
            }) && regions[i + 1].offset >= regions[k].end(),
        regions[k].size <= total,
{
    let w = without(regions, k);
    let cut = regions.remove(k);
    let pivot = regions[k].offset;
    let by = regions[k].size;
    assert(w.len() == cut.len());
    assert forall|i: int| 0 <= i < k implies #[trigger] w[i] == regions[i] by {
        lemma_tiling_ordered(regions, total, i, k);
        assert(cut[i] == regions[i]);
        assert(w[i] == cut[i].compacted(pivot, by));
        assert(regions[i].offset <= pivot);
    }
    assert forall|i: int| k <= i < regions.len() - 1 implies #[trigger] w[i] == (Region {
        offset: (regions[i + 1].offset - regions[k].size) as nat,
        ..regions[i + 1]
    }) && regions[i + 1].offset >= regions[k].end() by {
        lemma_tiling_ordered(regions, total, k, i + 1);
        let r = regions[i + 1];
        assert(cut[i] == r);
        assert(w[i] == r.compacted(pivot, by));
        assert(r.offset >= pivot + by);
        if r.offset > pivot {
            assert(r.compacted(pivot, by) == (Region { offset: (r.offset - by) as nat, ..r }));
        } else {
            assert(by == 0);
            assert(r.compacted(pivot, by) == r);
            assert(r == (Region { offset: (r.offset - by) as nat, ..r }));
        }
    }
    if k < regions.len() - 1 {
        lemma_tiling_ordered(regions, total, k, regions.len() - 1);
    } else {
        assert(regions[k] == regions.last());
    }
}

/// Taking a region out of a tiling leaves a tiling of what is left, and keeps
/// the keys distinct.
#[verifier::rlimit(40)]
pub proof fn lemma_without_tiles(regions: Seq<Region>, total: nat, k: int)
    requires
        tiling(regions, total),
        distinct_ids(regions),
        0 <= k < regions.len(),
    ensures
        regions[k].size <= total,
        tiling(without(regions, k), (total - regions[k].size) as nat),
        distinct_ids(without(regions, k)),
        !live(without(regions, k), regions[k].id),
{
    lemma_without(regions, total, k);
    let w = without(regions, k);
    assert forall|i: int| 0 <= i < w.len() implies (#[trigger] w[i]).id == regions[if i < k {
        i
    } else {
        i + 1
    }].id by {}
    assert forall|i: int, j: int| 0 <= i && j == i + 1 && j < w.len() implies (#[trigger] w[i]).end()
        == (#[trigger] w[j]).offset by {
        if j < k {
            assert(regions[i].end() == regions[j].offset);
        } else if j == k {
            assert(regions[i].end() == regions[k].offset);
            assert(regions[k].end() == regions[k + 1].offset);
        } else {
            assert(regions[i + 1].end() == regions[j + 1].offset);
        }
    }
    if w.len() > 0 {
        if k == 0 {
            assert(regions[0].end() == regions[1].offset);
        }
        if k == regions.len() - 1 {
            assert(regions[k - 1].end() == regions[k].offset);
        }
    }
}

/// The regions of a tiling are pairwise disjoint, and their sizes add up to
/// the total.
pub proof fn lemma_tiling_disjoint_and_full(regions: Seq<Region>, total: nat)
    requires
        tiling(regions, total),
    ensures
        forall|i: int, j: int|
            0 <= i < regions.len() && 0 <= j < regions.len() && i != j ==> disjoint(
                #[trigger] regions[i],
                #[trigger] regions[j],
            ),
        sum_sizes(regions) == total,
    decreases regions.len(),
{
    assert forall|i: int, j: int|
        0 <= i < regions.len() && 0 <= j < regions.len() && i != j implies disjoint(
        #[trigger] regions[i],
        #[trigger] regions[j],
    ) by {
        if i < j {
            lemma_tiling_ordered(regions, total, i, j);
        } else {
            lemma_tiling_ordered(regions, total, j, i);
        }
    }
    if regions.len() > 0 {
        let front = regions.drop_last();
        let last = regions.last();
        if front.len() > 0 {
            assert(front.last() == regions[regions.len() - 2]);
            assert(regions[regions.len() - 2].end() == regions[regions.len() - 1].offset);
            assert forall|i: int, j: int|
                0 <= i && j == i + 1 && j < front.len() implies (#[trigger] front[i]).end() == (
            #[trigger] front[j]).offset by {
                assert(regions[i].end() == regions[j].offset);
            }
        }
        lemma_tiling_disjoint_and_full(front, last.offset);
    }
}

/// When the region with the key `id`, at offset `o` and of size `s`, is
/// freed, every other region stays live and keeps its size; one that started
/// behind `o` starts `s` earlier, and one that started at `o` or before stays
/// where it was.
pub proof fn law_free_compacts(regions: Seq<Region>, total: nat, id: Seq<char>, other: Seq<char>)
    requires
        tiling(regions, total),
        distinct_ids(regions),
        live(regions, id),
        live(regions, other),
        other != id,
    ensures
        ({
            let k = position(regions, id);
            let left = without(regions, k);
            let was = regions[position(regions, other)];
            let is = left[position(left, other)];
            &&& live(left, other)
            &&& !live(left, id)
            &&& is.id == other
            &&& is.size == was.size
            &&& was.offset > regions[k].offset ==> is.offset == was.offset - regions[k].size
            &&& was.offset <= regions[k].offset ==> is.offset == was.offset
        }),
{
    let k = position(regions, id);
    let p = position(regions, other);
    let left = without(regions, k);
    lemma_without(regions, total, k);
    lemma_without_tiles(regions, total, k);
    let q = if p < k {
        p
    } else {
        p - 1
    };
    assert(left[q].id == other);
    let found = position(left, other);
    assert(left[found].id == other);
    assert(found == q) by {
        if found != q {
            assert(left[found].id != left[q].id);
        }
    }
    if p < k {
        lemma_tiling_ordered(regions, total, p, k);
    } else {
        lemma_tiling_ordered(regions, total, k, p);
    }
}

/// Allocating a region and freeing it at once leaves the regions and the
/// size as they were.
pub proof fn law_allocate_then_free(regions: Seq<Region>, total: nat, id: Seq<char>, size: nat)
    requires
        tiling(regions, total),
        distinct_ids(regions),
        !live(regions, id),
    ensures
        ({
            let grown = regions.push(Region { id, offset: total, size });
            &&& live(grown, id)
            &&& position(grown, id) == regions.len()
            &&& without(grown, position(grown, id)) == regions
            &&& total + size - grown[position(grown, id)].size == total
        }),
{
    let grown = regions.push(Region { id, offset: total, size });
    let n = regions.len() as int;
    assert(grown[n].id == id);
    let k = position(grown, id);
    assert(grown[k].id == id);
    if k != n {
        assert(regions[k].id == id);
    }
    assert forall|i: int| 0 <= i < n implies (#[trigger] regions[i]).offset <= total by {
        lemma_tiling_end_bound(regions, total, i);
    }
    assert(without(grown, n) =~= regions);
}

} // verus!
