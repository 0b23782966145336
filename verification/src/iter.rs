//! Consuming iteration over an array-backed owning pointer.
//!
//! Turning a slice-tagged [`StackPtr`](crate::StackPtr) into a
//! `SliceIntoIter` spends the handle; the iterator inherits the ownership of
//! the whole run of cells.  Each `next` hands one element out by value — the
//! cell becomes `Moved`, its destructor is now the caller's business and will
//! never run in the region.  Dropping the iterator destroys exactly the
//! elements it never yielded, each exactly once, so abandoning the iteration
//! early neither leaks the remainder nor touches what was already handed out.

use vstd::prelude::*;

use core::marker::PhantomData;

use crate::region::Region;
use crate::region::RegionView;
use crate::region::SlotState;

verus! {

/// The mathematical model of the iterator: the region it is bound to, the
/// cell range it owns, and how many elements it has yielded so far.
pub struct IterView {
    pub region_id: u64,
    pub start: int,
    pub len: int,
    pub pos: int,
}

impl IterView {
    /// The iterator and the region agree: the iterator's range exists in the
    /// region, every yielded cell is `Moved` (its destructor will never run
    /// here), and every cell still to come is live.
    pub open spec fn in_sync<E>(self, r: RegionView<E>) -> bool {
        &&& self.region_id == r.id
        &&& 0 <= self.start
        &&& 0 <= self.pos <= self.len
        &&& self.start + self.len <= r.slots.len()
        &&& forall|i: int|
            self.start <= i < self.start + self.pos ==> (#[trigger] r.slots[i]).state
                == SlotState::Moved
        &&& forall|i: int|
            self.start + self.pos <= i < self.start + self.len ==> (#[trigger] r.slots[i]).state
                == SlotState::Live
    }
}

/// A cursor that owns the not-yet-yielded tail of an array-backed pointee.
/// Like the handle it came from, it is move-only: it is the one owner of the
/// elements it has not yielded.
pub struct SliceIntoIter<E> {
    region_id: u64,
    start: usize,
    len: usize,
    pos: usize,
    pointee: PhantomData<E>,
}

impl<E> View for SliceIntoIter<E> {
    type V = IterView;

    closed spec fn view(&self) -> IterView {
        IterView {
            region_id: self.region_id,
            start: self.start as int,
            len: self.len as int,
            pos: self.pos as int,
        }
    }
}

impl<E> SliceIntoIter<E> {
    /// Makes the cursor over the cells `[start, start + len)`, nothing
    /// yielded yet.
    pub(crate) fn make(region_id: u64, start: usize, len: usize) -> (it: SliceIntoIter<E>)
        ensures
            it@.region_id == region_id,
            it@.start == start,
            it@.len == len,
            it@.pos == 0,
    {
        SliceIntoIter { region_id, start, len, pos: 0, pointee: PhantomData }
    }

    /// How many elements are still to be yielded.
    pub fn remaining(&self) -> (n: usize)
        requires
            self@.pos <= self@.len,
        ensures
            n == self@.len - self@.pos,
    {
        self.len - self.pos
    }

    /// Yields the next element by value, in cell order, or `None` once all
    /// `len` elements have been yielded.  A yielded element leaves the region
    /// for good: its cell is marked `Moved` and its destructor will never run
    /// there — destroying it is from now on the caller's responsibility.
    pub fn next(&mut self, region: &mut Region<E>) -> (item: Option<E>)
        requires
            old(self)@.in_sync(old(region)@),
            old(region)@.wf(),
        ensures
            final(self)@.region_id == old(self)@.region_id,
            final(self)@.start == old(self)@.start,
            final(self)@.len == old(self)@.len,
            old(self)@.pos < old(self)@.len ==> {
                &&& item == Some(old(region)@.value_at(old(self)@.start + old(self)@.pos))
                &&& final(self)@.pos == old(self)@.pos + 1
                &&& final(region)@ == old(region)@.move_out_at(
                    old(self)@.start + old(self)@.pos,
                )
            },
            old(self)@.pos == old(self)@.len ==> {
                &&& item is None
                &&& final(self)@ == old(self)@
                &&& final(region)@ == old(region)@
            },
            final(self)@.in_sync(final(region)@),
            final(region)@.wf(),
    {
        if self.pos < self.len {
            let n = region.slot_count();
            proof {
                assert(self@.start + self@.pos < n);
            }
            let i = self.start + self.pos;
            proof {
                assert(region@.slots[i as int].state == SlotState::Live);
            }
            let item = region.take_at(i);
            self.pos = self.pos + 1;
            proof {
                assert(old(region)@.slots[i as int].wf());
                assert forall|j: int| 0 <= j < region@.slots.len() implies (
                #[trigger] region@.slots[j]).wf() by {
                    assert(old(region)@.slots[j].wf());
                }
            }
            Some(item)
        } else {
            None
        }
    }

    /// Tears the iterator down: every element it never yielded is destroyed,
    /// each exactly once, and the yielded ones are not touched.  This is the
    /// scope-exit destruction of an abandoned iteration, written out.
    pub fn drop(self, region: &mut Region<E>)
        requires
            self@.in_sync(old(region)@),
            old(region)@.wf(),
        ensures
            final(region)@ == old(region)@.destroy_range(
                self@.start + self@.pos,
                self@.len - self@.pos,
            ),
            final(region)@.wf(),
    {
        let SliceIntoIter { start, len, pos, .. } = self;
        let n = region.slot_count();
        proof {
            assert(start + len <= n);
        }
        let first = start + pos;
        let rest = len - pos;
        proof {
            assert(old(region)@.live_range(first as int, rest as int));
        }
        let mut k: usize = 0;
        while k < rest
            invariant
                k <= rest,
                first + rest <= n,
                region@ == old(region)@.destroy_range(first as int, k as int),
                old(region)@.live_range(first as int, rest as int),
                old(region)@.wf(),
            decreases rest - k,
        {
            proof {
                assert(old(region)@.slots[first + k].wf());
                assert(old(region)@.slots[first + k].state == SlotState::Live);
                assert forall|i: int| 0 <= i < region@.slots.len() implies (
                #[trigger] region@.slots[i]).wf() by {
                    assert(old(region)@.slots[i].wf());
                }
            }
            region.destroy_at(first + k);
            proof {
                assert(region@.slots =~= old(region)@.destroy_range(
                    first as int,
                    k as int + 1,
                ).slots);
                assert(region@ =~= old(region)@.destroy_range(first as int, k as int + 1));
            }
            k = k + 1;
        }
        proof {
            assert forall|i: int| 0 <= i < region@.slots.len() implies (
            #[trigger] region@.slots[i]).wf() by {
                assert(old(region)@.slots[i].wf());
            }
        }
    }
}

} // verus!
