//! The dynamic buffer allocator: named regions that tile one linear buffer,
//! the handles that stand for them, and the queues through which handles
//! reach the allocator.

use vstd::prelude::*;
use crate::action::ModifyAction;
use crate::queue::{Channel, SendError};
use crate::regions::{
    distinct_ids, disjoint, freed_all, given_up, keys, lemma_behind, lemma_tiling_disjoint_and_full,
    lemma_without_tiles, live, position, sum_freed, sum_sizes, tiling, without,
    Region,
};

verus! {

/// The key of a live region, chosen by the caller.
pub type BufferAllocationID = String;

/// A contiguous region of the buffer, counted in elements.
#[derive(Debug, Clone, Copy, PartialEq, Eq)]
pub struct BufferAllocation {
    pub offset: usize,
    pub size: usize,
}

/// A capability for one region: where it lies, and a way to send mutations of
/// it to the allocator.
pub trait AllocHandle {
    /// The key of the region.
    spec fn spec_id(&self) -> Seq<char>;

    /// Where the region starts, as this handle knows it.
    spec fn spec_offset(&self) -> usize;

    /// The number of elements of the region.
    spec fn spec_size(&self) -> usize;

    /// The key of the region.
    fn id(&self) -> (r: &BufferAllocationID)
        ensures
            r@ == self.spec_id(),
    ;

    /// Where the region starts, as this handle knows it.
    fn offset(&self) -> (r: usize)
        ensures
            r == self.spec_offset(),
    ;

    /// The number of elements of the region.
    fn size(&self) -> (r: usize)
        ensures
            r == self.spec_size(),
    ;

    /// Sends `action`, whose offset is relative to this handle, to the
    /// allocator's queue with the offset made absolute. On a closed queue
    /// nothing is enqueued and the action comes back inside the error.
    fn send_action(&self, action: ModifyAction, queue: &mut Channel<ModifyAction>) -> (r: Result<
        (),
        SendError<ModifyAction>,
    >)
        requires
            action.offset + self.spec_offset() <= usize::MAX,
        ensures
            final(queue).is_open() == old(queue).is_open(),
            old(queue).is_open() ==> r is Ok && final(queue).pending() == old(queue).pending().push(
                action.shifted(self.spec_offset()),
            ),
            !old(queue).is_open() ==> r == Err::<(), SendError<ModifyAction>>(
                SendError(action.shifted(self.spec_offset())),
            ) && final(queue).pending() == old(queue).pending(),
    ;
}

/// Makes `action` absolute against `base` and sends it.
fn forward(base: usize, action: ModifyAction, queue: &mut Channel<ModifyAction>) -> (r: Result<
    (),
    SendError<ModifyAction>,
>)
    requires
        action.offset + base <= usize::MAX,
    ensures
        final(queue).is_open() == old(queue).is_open(),
        old(queue).is_open() ==> r is Ok && final(queue).pending() == old(queue).pending().push(
            action.shifted(base),
        ),
        !old(queue).is_open() ==> r == Err::<(), SendError<ModifyAction>>(
            SendError(action.shifted(base)),
        ) && final(queue).pending() == old(queue).pending(),
{
    let absolute = ModifyAction::new(action.offset + base, action.size, action.mod_action);
    queue.send(absolute)
}

/// A handle whose region never moves and is never given up.
#[derive(Debug)]
pub struct StaticAllocHandle {
    id: String,
    pub offset: usize,
    pub size: usize,
}

impl Clone for StaticAllocHandle {
    fn clone(&self) -> (r: StaticAllocHandle)
        ensures
            r == *self,
    {
        StaticAllocHandle { id: self.id.clone(), offset: self.offset, size: self.size }
    }
}

impl StaticAllocHandle {
    /// A handle for the `size` elements at `offset`, under the key `id`.
    pub fn new(id: &str, offset: usize, size: usize) -> (r: StaticAllocHandle)
        ensures
            r.spec_id() == id@,
            r.spec_offset() == offset,
            r.spec_size() == size,
    {
        StaticAllocHandle { id: id.to_owned(), offset, size }
    }

    /// A handle for the region `allocation`, under the key `id`.
    pub fn from_buffer_allocation(id: &str, allocation: &BufferAllocation) -> (r:
        StaticAllocHandle)
        ensures
            r.spec_id() == id@,
            r.spec_offset() == allocation.offset,
            r.spec_size() == allocation.size,
    {
        StaticAllocHandle { id: id.to_owned(), offset: allocation.offset, size: allocation.size }
    }
}

impl AllocHandle for StaticAllocHandle {
    closed spec fn spec_id(&self) -> Seq<char> {
        self.id@
    }

    closed spec fn spec_offset(&self) -> usize {
        self.offset
    }

    closed spec fn spec_size(&self) -> usize {
        self.size
    }

    fn id(&self) -> (r: &BufferAllocationID) {
        &self.id
    }

    fn offset(&self) -> (r: usize) {
        self.offset
    }

    fn size(&self) -> (r: usize) {
        self.size
    }

    fn send_action(&self, action: ModifyAction, queue: &mut Channel<ModifyAction>) -> (r: Result<
        (),
        SendError<ModifyAction>,
    >) {
        forward(self.offset, action, queue)
    }
}

/// A handle whose region moves left when regions before it are freed, and
/// which can ask for its own region to be freed.
#[derive(Debug)]
pub struct DynamicAllocHandle {
    id: String,
    destroyed: bool,
    offset: usize,
    size: usize,
}

impl Clone for DynamicAllocHandle {
    fn clone(&self) -> (r: DynamicAllocHandle)
        ensures
            r == *self,
    {
        DynamicAllocHandle {
            id: self.id.clone(),
            destroyed: self.destroyed,
            offset: self.offset,
            size: self.size,
        }
    }
}

impl AllocHandle for DynamicAllocHandle {
    closed spec fn spec_id(&self) -> Seq<char> {
        self.id@
    }

    closed spec fn spec_offset(&self) -> usize {
        self.offset
    }

    closed spec fn spec_size(&self) -> usize {
        self.size
    }

    fn id(&self) -> (r: &BufferAllocationID) {
        &self.id
    }

    fn offset(&self) -> (r: usize) {
        self.offset
    }

    fn size(&self) -> (r: usize) {
        self.size
    }

    fn send_action(&self, action: ModifyAction, queue: &mut Channel<ModifyAction>) -> (r: Result<
        (),
        SendError<ModifyAction>,
    >) {
        forward(self.offset, action, queue)
    }
}

impl DynamicAllocHandle {
    /// Whether `destroy` was called on this handle, or its region was found
    /// freed.
    pub closed spec fn destroyed(&self) -> bool {
        self.destroyed
    }

    /// The handle's region as contracts see it.
    pub open spec fn region(&self) -> Region {
        Region {
            id: self.spec_id(),
            offset: self.spec_offset() as nat,
            size: self.spec_size() as nat,
        }
    }

    /// A handle for the region `allocation`, under the key `id`, not yet
    /// destroyed.
    pub(crate) fn new(id: String, allocation: BufferAllocation) -> (r: DynamicAllocHandle)
        ensures
            r.spec_id() == id@,
            r.spec_offset() == allocation.offset,
            r.spec_size() == allocation.size,
            !r.destroyed(),
    {
        DynamicAllocHandle { id, destroyed: false, offset: allocation.offset, size: allocation.size }
    }

    /// Marks the handle destroyed and asks the allocator to free its region.
    /// The region itself stays until the allocator handles the request.
    pub fn destroy(&mut self, requests: &mut Channel<BufferAllocationID>)
        requires
            old(requests).is_open(),
        ensures
            final(self).destroyed(),
            final(self).region() == old(self).region(),
            final(requests).is_open(),
            final(requests).pending().len() == old(requests).pending().len() + 1,
            final(requests).pending().drop_last() == old(requests).pending(),
            final(requests).pending().last()@ == old(self).spec_id(),
    {
        self.destroyed = true;
        let sent = requests.send(self.id.clone());
        assert(requests.pending().drop_last() =~= old(requests).pending());
    }

    /// Whether `destroy` was called on this handle, or its region was found
    /// freed.
    pub fn is_destroyed(&self) -> (r: bool)
        ensures
            r == self.destroyed(),
    {
        self.destroyed
    }

    /// Where the handle's region lies.
    pub fn allocation(&self) -> (r: BufferAllocation)
        ensures
            r.offset == self.spec_offset(),
            r.size == self.spec_size(),
    {
        BufferAllocation { offset: self.offset, size: self.size }
    }

    /// Moves the region left by `pos`.
    pub(crate) fn move_offset_left(&mut self, pos: usize)
        requires
            pos <= old(self).spec_offset(),
        ensures
            final(self).spec_offset() == old(self).spec_offset() - pos,
            final(self).spec_size() == old(self).spec_size(),
            final(self).spec_id() == old(self).spec_id(),
            final(self).destroyed() == old(self).destroyed(),
    {
        self.offset = self.offset - pos;
    }
}

/// An allocator of regions in one buffer.
pub trait BufferAlloc {
    type Handle: AllocHandle;

    /// The live regions in the order of their offsets.
    spec fn regions(&self) -> Seq<Region>;

    /// The number of elements that the live regions cover.
    spec fn total(&self) -> nat;

    /// The queue of mutations that wait for `update`.
    spec fn actions(&self) -> Channel<ModifyAction>;

    /// The queue of regions that asked to be freed.
    spec fn requests(&self) -> Channel<BufferAllocationID>;

    /// The allocator's invariant: distinct keys, and regions that tile the
    /// buffer.
    spec fn wf(&self) -> bool;

    /// The handle of the live region with the key `id`, if there is one.
    fn get(&self, id: &str) -> (r: Option<&Self::Handle>)
        requires
            self.wf(),
        ensures
            r is Some <==> live(self.regions(), id@),
            r matches Some(h) ==> {
                &&& h.spec_id() == id@
                &&& h.spec_offset() == self.regions()[position(self.regions(), id@)].offset
                &&& h.spec_size() == self.regions()[position(self.regions(), id@)].size
            },
    ;

    /// The number of elements that the live regions cover.
    fn size(&self) -> (r: usize)
        requires
            self.wf(),
        ensures
            r == self.total(),
    ;

    /// Takes every pending mutation out of the queue, oldest first, and hands
    /// each to `modify`.
    fn update<F: Fn(ModifyAction)>(&mut self, modify: F)
        requires
            old(self).wf(),
            forall|i: int|
                0 <= i < old(self).actions().pending().len() ==> call_requires(
                    modify,
                    (#[trigger] old(self).actions().pending()[i],),
                ),
        ensures
            final(self).wf(),
            final(self).regions() == old(self).regions(),
            final(self).total() == old(self).total(),
            final(self).requests() == old(self).requests(),
            final(self).actions().is_open() == old(self).actions().is_open(),
            final(self).actions().pending() == Seq::<ModifyAction>::empty(),
            forall|i: int|
                0 <= i < old(self).actions().pending().len() ==> call_ensures(
                    modify,
                    (#[trigger] old(self).actions().pending()[i],),
                    (),
                ),
    ;
}

/// An allocator whose regions come and go.
pub trait BufferDynamicAlloc: BufferAlloc<Handle = DynamicAllocHandle> {
    /// Appends a region of `size` elements under the key `id` and returns its
    /// handle.
    fn allocate(&mut self, id: &str, size: usize) -> (r: DynamicAllocHandle)
        requires
            old(self).wf(),
            !live(old(self).regions(), id@),
            old(self).total() + size <= usize::MAX,
        ensures
            final(self).wf(),
            final(self).regions() == old(self).regions().push(r.region()),
            final(self).total() == old(self).total() + size,
            final(self).actions() == old(self).actions(),
            final(self).requests() == old(self).requests(),
            r.region() == (Region { id: id@, offset: old(self).total(), size: size as nat }),
            !r.destroyed(),
    ;

    /// Frees the region with the key `id` and returns where it lay; every
    /// region behind it moves left by its size. Without such a region nothing
    /// changes.
    fn free(&mut self, id: &str) -> (r: Option<BufferAllocation>)
        requires
            old(self).wf(),
        ensures
            final(self).wf(),
            final(self).actions() == old(self).actions(),
            final(self).requests() == old(self).requests(),
            r is Some <==> live(old(self).regions(), id@),
            r is None ==> final(self).regions() == old(self).regions() && final(self).total()
                == old(self).total(),
            r matches Some(a) ==> {
                let k = position(old(self).regions(), id@);
                &&& a.offset == old(self).regions()[k].offset
                &&& a.size == old(self).regions()[k].size
                &&& final(self).regions() == without(old(self).regions(), k)
                &&& final(self).total() == old(self).total() - a.size
            },
    ;

    /// Takes the keys of the regions that asked to be freed since the last
    /// call, oldest first.
    fn get_destroyed_handles(&mut self) -> (r: Vec<BufferAllocationID>)
        requires
            old(self).wf(),
        ensures
            final(self).wf(),
            r@ == old(self).requests().pending(),
            final(self).requests().pending() == Seq::<BufferAllocationID>::empty(),
            final(self).requests().is_open() == old(self).requests().is_open(),
            final(self).regions() == old(self).regions(),
            final(self).total() == old(self).total(),
            final(self).actions() == old(self).actions(),
    ;
}

/// The allocator: its regions in the order of their offsets, and the
/// receiving ends of the two queues.
#[derive(Debug)]
pub struct BufferDynamicAllocator {
    packets: Vec<DynamicAllocHandle>,
    destroy_requests: Channel<BufferAllocationID>,
    action_queue: Channel<ModifyAction>,
    size: usize,
}

impl BufferDynamicAllocator {
    /// No record of a live region is marked destroyed.
    pub closed spec fn records_live(&self) -> bool {
        forall|i: int| 0 <= i < self.packets@.len() ==> !(#[trigger] self.packets@[i]).destroyed()
    }

    /// The sending end of the queue of mutations, for handles to send on.
    pub fn action_sender(&mut self) -> (r: &mut Channel<ModifyAction>)
        ensures
            *r == old(self).actions(),
            final(self).actions() == *final(r),
            final(self).requests() == old(self).requests(),
            final(self).regions() == old(self).regions(),
            final(self).total() == old(self).total(),
            final(self).records_live() == old(self).records_live(),
    {
        &mut self.action_queue
    }

    /// The sending end of the queue of requests to free a region, for handles
    /// to send on.
    pub fn destroy_sender(&mut self) -> (r: &mut Channel<BufferAllocationID>)
        ensures
            *r == old(self).requests(),
            final(self).requests() == *final(r),
            final(self).actions() == old(self).actions(),
            final(self).regions() == old(self).regions(),
            final(self).total() == old(self).total(),
            final(self).records_live() == old(self).records_live(),
    {
        &mut self.destroy_requests
    }

    /// Brings a holder's copy of a handle up to date: a live region's copy
    /// takes the region's present place, and the copy of a region that is no
    /// longer live is marked destroyed. A copy already marked destroyed stays
    /// as it is.
    pub fn sync(&self, handle: &mut DynamicAllocHandle)
        requires
            self.wf(),
        ensures
            final(handle).spec_id() == old(handle).spec_id(),
            old(handle).destroyed() ==> *final(handle) == *old(handle),
            !old(handle).destroyed() && live(self.regions(), old(handle).spec_id()) ==> !final(handle).destroyed() && final(handle).region() == self.regions()[position(
                self.regions(),
                old(handle).spec_id(),
            )],
            !old(handle).destroyed() && !live(self.regions(), old(handle).spec_id()) ==> final(handle).destroyed() && final(handle).region() == old(handle).region(),
    {
        if handle.destroyed {
            return ;
        }
        match self.find(handle.id.as_str()) {
            Some(k) => {
                handle.offset = self.packets[k].offset;
                handle.size = self.packets[k].size;
            },
            None => {
                handle.destroyed = true;
            },
        }
    }

    /// The index of the record with the key `id`.
    fn find(&self, id: &str) -> (r: Option<usize>)
        requires
            self.wf(),
        ensures
            r is Some <==> live(self.regions(), id@),
            r matches Some(k) ==> k < self.packets@.len() && k == position(self.regions(), id@),
    {
        let key = id.to_owned();
        let mut i: usize = 0;
        while i < self.packets.len()
            invariant
                i <= self.packets@.len(),
                key@ == id@,
                self.regions().len() == self.packets@.len(),
                forall|j: int| 0 <= j < self.packets@.len() ==> (#[trigger] self.regions()[j]).id == self.packets@[j].spec_id(),
                forall|j: int| 0 <= j < i ==> (#[trigger] self.regions()[j]).id != id@,
                distinct_ids(self.regions()),
            decreases self.packets@.len() - i,
        {
            if *self.packets[i].id() == key {
                assert(self.regions()[i as int].id == id@);
                assert(position(self.regions(), id@) == i);
                return Some(i);
            }
            i += 1;
        }
        None
    }
}

impl Default for BufferDynamicAllocator {
    /// An allocator without regions, with both queues open and empty.
    fn default() -> (r: BufferDynamicAllocator)
        ensures
            r.wf(),
            r.regions() == Seq::<Region>::empty(),
            r.total() == 0,
            r.actions().is_open(),
            r.actions().pending() == Seq::<ModifyAction>::empty(),
            r.requests().is_open(),
            r.requests().pending() == Seq::<BufferAllocationID>::empty(),
    {
        let r = BufferDynamicAllocator {
            packets: Vec::new(),
            destroy_requests: Channel::new(),
            action_queue: Channel::new(),
            size: 0,
        };
        assert(r.regions() =~= Seq::<Region>::empty());
        r
    }
}

impl BufferAlloc for BufferDynamicAllocator {
    type Handle = DynamicAllocHandle;

    closed spec fn regions(&self) -> Seq<Region> {
        regions_of(self.packets@)
    }

    closed spec fn total(&self) -> nat {
        self.size as nat
    }

    closed spec fn actions(&self) -> Channel<ModifyAction> {
        self.action_queue
    }

    closed spec fn requests(&self) -> Channel<BufferAllocationID> {
        self.destroy_requests
    }

    open spec fn wf(&self) -> bool {
        &&& distinct_ids(self.regions())
        &&& tiling(self.regions(), self.total())
        &&& self.records_live()
    }

    fn get(&self, id: &str) -> (r: Option<&DynamicAllocHandle>) {
        match self.find(id) {
            Some(k) => Some(&self.packets[k]),
            None => None,
        }
    }

    fn size(&self) -> (r: usize) {
        self.size
    }

    fn update<F: Fn(ModifyAction)>(&mut self, modify: F) {
        let pending = self.action_queue.drain();
        assert(pending@ == old(self).actions().pending());
        let mut i: usize = 0;
        while i < pending.len()
            invariant
                i <= pending@.len(),
                pending@ == old(self).actions().pending(),
                forall|j: int| 0 <= j < pending@.len() ==> call_requires(modify, (#[trigger] pending@[j],)),
                forall|j: int| 0 <= j < i ==> call_ensures(modify, (#[trigger] pending@[j],), ()),
            decreases pending@.len() - i,
        {
            modify(pending[i]);
            i += 1;
        }
    }
}

/// The regions of the records `packets`.
pub open spec fn regions_of(packets: Seq<DynamicAllocHandle>) -> Seq<Region> {
    Seq::new(packets.len(), |i: int| packets[i].region())
}

/// Moves every record that starts behind `pivot` left by `by`.
fn shift_left(packets: &mut Vec<DynamicAllocHandle>, pivot: usize, by: usize)
    requires
        forall|i: int|
            0 <= i < old(packets)@.len() && (#[trigger] old(packets)@[i]).spec_offset() > pivot
                ==> old(packets)@[i].spec_offset() >= pivot + by,
    ensures
        final(packets)@.len() == old(packets)@.len(),
        forall|i: int|
            0 <= i < old(packets)@.len() ==> (#[trigger] final(packets)@[i]).region() == old(
                packets,
            )@[i].region().compacted(pivot as nat, by as nat),
        forall|i: int|
            0 <= i < old(packets)@.len() ==> (#[trigger] final(packets)@[i]).destroyed() == old(
                packets,
            )@[i].destroyed(),
{
    let n = packets.len();
    let mut j: usize = 0;
    while j < n
        invariant
            j <= n,
            n == packets@.len(),
            n == old(packets)@.len(),
            forall|i: int|
                0 <= i < n && (#[trigger] old(packets)@[i]).spec_offset() > pivot ==> old(
                    packets,
                )@[i].spec_offset() >= pivot + by,
            forall|i: int|
                0 <= i < j ==> (#[trigger] packets@[i]).region() == old(
                    packets,
                )@[i].region().compacted(pivot as nat, by as nat),
            forall|i: int| j <= i < n ==> #[trigger] packets@[i] == old(packets)@[i],
            forall|i: int|
                0 <= i < n ==> (#[trigger] packets@[i]).destroyed() == old(
                    packets,
                )@[i].destroyed(),
        decreases n - j,
    {
        assert(packets@[j as int] == old(packets)@[j as int]);
        if packets[j].offset() > pivot {
            packets[j].move_offset_left(by);
        }
        j += 1;
    }
}

impl BufferDynamicAlloc for BufferDynamicAllocator {
    fn allocate(&mut self, id: &str, size: usize) -> (r: DynamicAllocHandle) {
        let offset = self.size;
        self.size = self.size + size;
        let handle = DynamicAllocHandle::new(id.to_owned(), BufferAllocation { offset, size });
        let record = handle.clone();
        self.packets.push(record);
        proof {
            let before = old(self).regions();
            let after = self.regions();
            assert(after =~= before.push(handle.region()));
            assert forall|i: int, j: int|
                0 <= i && j == i + 1 && j < after.len() implies (#[trigger] after[i]).end() == (
            #[trigger] after[j]).offset by {
                if j < before.len() {
                    assert(before[i].end() == before[j].offset);
                }
            }
            assert forall|i: int, j: int|
                0 <= i < after.len() && 0 <= j < after.len() && i != j implies #[trigger] after[i].id
                != #[trigger] after[j].id by {
                if i < before.len() && j < before.len() {
                    assert(before[i].id != before[j].id);
                } else if i < before.len() {
                    assert(before[i].id != id@);
                } else {
                    assert(before[j].id != id@);
                }
            }
        }
        handle
    }

    #[verifier::rlimit(40)]
    fn free(&mut self, id: &str) -> (r: Option<BufferAllocation>) {
        match self.find(id) {
            None => None,
            Some(k) => {
                let ghost before = self.regions();
                let ghost total = self.size as nat;
                let remove_packet = self.packets.remove(k);
                let pivot = remove_packet.offset();
                let by = remove_packet.size();
                let ghost cut = self.packets@;
                proof {
                    assert(remove_packet.region() == before[k as int]);
                    assert(regions_of(cut) =~= before.remove(k as int));
                    lemma_behind(before, total, k as int);
                    lemma_without_tiles(before, total, k as int);
                    assert forall|i: int|
                        0 <= i < cut.len() && (#[trigger] cut[i]).spec_offset()
                            > pivot implies cut[i].spec_offset() >= pivot + by by {
                        assert(regions_of(cut)[i] == cut[i].region());
                    }
                }
                self.size = self.size - by;
                shift_left(&mut self.packets, pivot, by);
                proof {
                    assert(self.regions() =~= without(before, k as int)) by {
                        assert forall|i: int| 0 <= i < cut.len() implies self.regions()[i]
                            == without(before, k as int)[i] by {
                            assert(regions_of(cut)[i] == cut[i].region());
                        }
                    }
                }
                Some(remove_packet.allocation())
            },
        }
    }

    fn get_destroyed_handles(&mut self) -> (r: Vec<BufferAllocationID>) {
        self.destroy_requests.drain()
    }
}

/// At all times the live regions of an allocator are pairwise disjoint and
/// their sizes add up to its size: `default` establishes the invariant `wf`,
/// `allocate` and `free` keep it, and it implies both.
pub proof fn law_regions_disjoint_and_full(allocator: BufferDynamicAllocator)
    requires
        allocator.wf(),
    ensures
        forall|i: int, j: int|
            0 <= i < allocator.regions().len() && 0 <= j < allocator.regions().len() && i != j
                ==> disjoint(#[trigger] allocator.regions()[i], #[trigger] allocator.regions()[j]),
        sum_sizes(allocator.regions()) == allocator.total(),
{
    lemma_tiling_disjoint_and_full(allocator.regions(), allocator.total());
}

impl BufferDynamicAllocator {
    /// Frees every region that asked for it since the last call, in the
    /// order of the requests, and returns where each lay, for the caller to
    /// cut the same ranges out of the backing buffer.
    #[verifier::rlimit(40)]
    pub fn reclaim(&mut self) -> (r: Vec<BufferAllocation>)
        requires
            old(self).wf(),
        ensures
            final(self).wf(),
            final(self).regions() == freed_all(
                old(self).regions(),
                keys(old(self).requests().pending()),
            ),
            r@ == given_up(old(self).regions(), keys(old(self).requests().pending())),
            final(self).total() == old(self).total() - sum_freed(r@),
            final(self).requests().pending() == Seq::<BufferAllocationID>::empty(),
            final(self).requests().is_open() == old(self).requests().is_open(),
            final(self).actions() == old(self).actions(),
    {
        let ids = self.get_destroyed_handles();
        let ghost all = keys(ids@);
        let ghost start = old(self).regions();
        let mut out: Vec<BufferAllocation> = Vec::new();
        let n = ids.len();
        let mut i: usize = 0;
        assert(all.subrange(0, 0) =~= Seq::empty());
        while i < n
            invariant
                i <= n,
                n == ids@.len(),
                all == keys(ids@),
                self.wf(),
                self.regions() == freed_all(start, all.subrange(0, i as int)),
                out@ == given_up(start, all.subrange(0, i as int)),
                self.total() + sum_freed(out@) == old(self).total(),
                self.requests().pending() == Seq::<BufferAllocationID>::empty(),
                self.requests().is_open() == old(self).requests().is_open(),
                self.actions() == old(self).actions(),
            decreases n - i,
        {
            proof {
                assert(all.subrange(0, i as int + 1).drop_last() =~= all.subrange(0, i as int));
                assert(all.subrange(0, i as int + 1).last() == ids@[i as int]@);
            }
            match self.free(ids[i].as_str()) {
                Some(allocation) => {
                    let ghost earlier = out@;
                    out.push(allocation);
                    proof {
                        assert(out@.drop_last() =~= earlier);
                    }
                },
                None => {},
            }
            i += 1;
        }
        assert(all.subrange(0, n as int) =~= all);
        out
    }
}

} // verus!
