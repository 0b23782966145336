//! The owning stack pointer: a move-only handle over region storage.
//!
//! A `StackPtr` owns exactly one value — a single cell, or an array of cells —
//! inside the region that stands for the scope the value was declared in.  The
//! handle cannot be cloned or copied, so the sole ownership token moves with
//! it; the only ways to obtain one are the construction protocol
//! ([`StackPtr::new`], [`StackPtr::new_slice`]) and reassembly from raw parts,
//! and reassembly first requires disassembling a handle.  Destruction runs
//! through the handle exactly once, whatever type the handle was retyped to in
//! between.

use vstd::prelude::*;

use core::marker::PhantomData;

use crate::iter::SliceIntoIter;
use crate::region::LifetimeToken;
use crate::region::Region;
use crate::region::RegionView;
use crate::region::SlotState;

verus! {

/// The type tag of a handle: what kind of pointee its address is viewed as.
///
/// `Value` — a single concrete value (one cell).  `Slice` — an array of
/// values (a run of cells); the length lives in the handle, as it does in a
/// wide pointer.  `Interface` — a polymorphic view obtained by coercion: the
/// concrete type is erased and only the capability to destroy the pointee
/// (dispatched through the handle's retained extent) remains.
#[derive(Clone, Copy, Debug, PartialEq, Eq, Structural)]
pub enum PtrKind {
    Value,
    Slice,
    Interface,
}

/// The mathematical model of a handle: the identity of the region it is bound
/// to, the cell range it owns, and its type tag.
pub struct PtrView {
    pub region_id: u64,
    pub start: int,
    pub len: int,
    pub kind: PtrKind,
}

impl PtrView {
    /// A handle is well formed when its range is a real range and a
    /// single-value handle spans exactly one cell.
    pub open spec fn wf(self) -> bool {
        &&& 0 <= self.start
        &&& 0 <= self.len
        &&& (self.kind == PtrKind::Value ==> self.len == 1)
    }

    /// The handle is bound to `r` and every cell it owns is live there.
    pub open spec fn live_in<E>(self, r: RegionView<E>) -> bool {
        &&& self.region_id == r.id
        &&& r.live_range(self.start, self.len)
    }

    /// The same handle after its type tag was widened to the interface view.
    pub open spec fn as_interface(self) -> PtrView {
        PtrView { kind: PtrKind::Interface, ..self }
    }

    /// The raw pair that disassembling the handle yields: its address,
    /// rendered as its cell range, with the type tag stripped.
    pub open spec fn raw(self) -> RawView {
        RawView { start: self.start, len: self.len }
    }

    /// The handle that reassembling `raw` under the scope named by
    /// `region_id`, viewed as `kind`, yields.
    pub open spec fn assemble(raw: RawView, region_id: u64, kind: PtrKind) -> PtrView {
        PtrView { region_id, start: raw.start, len: raw.len, kind }
    }
}

/// An owning pointer to scope-local storage.  See the crate documentation;
/// the type is move-only on purpose — ownership of the pointee travels with
/// the one handle, and nothing duplicates it.
pub struct StackPtr<E> {
    region_id: u64,
    start: usize,
    len: usize,
    kind: PtrKind,
    pointee: PhantomData<E>,
}

impl<E> View for StackPtr<E> {
    type V = PtrView;

    closed spec fn view(&self) -> PtrView {
        PtrView {
            region_id: self.region_id,
            start: self.start as int,
            len: self.len as int,
            kind: self.kind,
        }
    }
}

/// The raw, untyped form of a disassembled handle: the address of the pointee
/// rendered as its cell range.  While ownership is in flight it is represented
/// by this pair alone, so the pair is as move-only as the handle was.
pub struct RawParts {
    start: usize,
    len: usize,
}

/// The mathematical model of a raw pair: the cell range it spans.
pub struct RawView {
    pub start: int,
    pub len: int,
}

impl View for RawParts {
    type V = RawView;

    closed spec fn view(&self) -> RawView {
        RawView { start: self.start as int, len: self.len as int }
    }
}

impl<E> StackPtr<E> {
    /// The construction protocol for a single value: the value leaves its
    /// original binding (it is moved in, so the old binding can neither be
    /// used nor run a destructor again), storage for it is declared in the
    /// scope's region, and the returned handle becomes the one owner of its
    /// destruction.
    pub fn new(region: &mut Region<E>, value: E) -> (p: StackPtr<E>)
        requires
            old(region)@.wf(),
        ensures
            final(region)@ == old(region)@.push_live(value),
            final(region)@.wf(),
            p@.region_id == old(region)@.id,
            p@.start == old(region)@.slots.len(),
            p@.len == 1,
            p@.kind == PtrKind::Value,
            p@.wf(),
            p@.live_in(final(region)@),
    {
        let start = region.push_live(value);
        proof {
            assert forall|i: int| 0 <= i < region@.slots.len() implies (
            #[trigger] region@.slots[i]).wf() by {
                if i < old(region)@.slots.len() {
                    assert(old(region)@.slots[i].wf());
                }
            }
        }
        StackPtr {
            region_id: region.id(),
            start,
            len: 1,
            kind: PtrKind::Value,
            pointee: PhantomData,
        }
    }

    /// The construction protocol for an array: every element moves out of its
    /// original binding into a run of freshly declared cells, and the returned
    /// slice-tagged handle owns them all.
    pub fn new_slice(region: &mut Region<E>, values: Vec<E>) -> (p: StackPtr<E>)
        requires
            old(region)@.wf(),
        ensures
            final(region)@ == old(region)@.push_live_all(values@),
            final(region)@.wf(),
            p@.region_id == old(region)@.id,
            p@.start == old(region)@.slots.len(),
            p@.len == values@.len(),
            p@.kind == PtrKind::Slice,
            p@.wf(),
            p@.live_in(final(region)@),
            final(region)@.values_in(p@.start, p@.len) == values@,
    {
        let ghost orig = values@;
        let start = region.slot_count();
        let len = values.len();
        let mut vals = values;
        let mut k: usize = 0;
        while k < len
            invariant
                len == orig.len(),
                k <= len,
                vals@ == orig.skip(k as int),
                region@ == old(region)@.push_live_all(orig.take(k as int)),
                start == old(region)@.slots.len(),
                old(region)@.wf(),
            decreases len - k,
        {
            let v = vals.remove(0);
            proof {
                assert(v == orig[k as int]);
            }
            region.push_live(v);
            proof {
                assert(vals@ =~= orig.skip(k as int + 1));
                assert(region@.slots =~= old(region)@.push_live_all(
                    orig.take(k as int + 1),
                ).slots);
                assert(region@ =~= old(region)@.push_live_all(orig.take(k as int + 1)));
            }
            k = k + 1;
        }
        proof {
            assert(orig.take(len as int) =~= orig);
            assert(region@ == old(region)@.push_live_all(orig));
            assert forall|i: int| 0 <= i < region@.slots.len() implies (
            #[trigger] region@.slots[i]).wf() by {
                if i < old(region)@.slots.len() {
                    assert(old(region)@.slots[i].wf());
                }
            }
            assert(region@.values_in(start as int, len as int) =~= orig);
        }
        StackPtr {
            region_id: region.id(),
            start,
            len,
            kind: PtrKind::Slice,
            pointee: PhantomData,
        }
    }

    /// Read-only access to the pointee of a single-value handle.  The
    /// reference lives as long as the borrow of the region: the region is
    /// what the pointer's bound lifetime bounds, so a borrow of the pointee
    /// is good for that whole extent, not merely for the call.
    pub fn borrow<'a>(&self, region: &'a Region<E>) -> (value: &'a E)
        requires
            self@.wf(),
            self@.kind == PtrKind::Value,
            self@.live_in(region@),
            region@.wf(),
        ensures
            *value == region@.value_at(self@.start),
    {
        region.read_at(self.start)
    }

    /// Read-only access to element `k` of an array-backed handle.
    pub fn borrow_at<'a>(&self, region: &'a Region<E>, k: usize) -> (value: &'a E)
        requires
            self@.kind == PtrKind::Slice,
            self@.live_in(region@),
            region@.wf(),
            k < self@.len,
        ensures
            *value == region@.value_at(self@.start + k),
    {
        let n = region.slot_count();
        proof {
            assert(self@.start + k < n);
        }
        region.read_at(self.start + k)
    }

    /// Exclusive write access to the pointee of a single-value handle: the
    /// pointee is replaced by `value` and the previous pointee is handed
    /// back.  Exclusivity is the region borrow's: while the write runs,
    /// nothing else reads.
    pub fn borrow_mut(&self, region: &mut Region<E>, value: E) -> (prev: E)
        requires
            self@.wf(),
            self@.kind == PtrKind::Value,
            self@.live_in(old(region)@),
            old(region)@.wf(),
        ensures
            prev == old(region)@.value_at(self@.start),
            final(region)@ == old(region)@.write_at(self@.start, value),
            final(region)@.wf(),
            self@.live_in(final(region)@),
    {
        let prev = region.replace_at(self.start, value);
        proof {
            assert forall|i: int| 0 <= i < region@.slots.len() implies (
            #[trigger] region@.slots[i]).wf() by {
                assert(old(region)@.slots[i].wf());
                if i == self@.start {
                    assert(old(region)@.slots[i].state == SlotState::Live);
                }
            }
        }
        prev
    }

    /// Disassembles the handle without destroying the pointee: ownership is
    /// now in flight, carried by the raw pair and bounded by the token.  If
    /// the pair is never reassembled, no destructor ever runs — the pointee
    /// is leaked, exactly as forgetting it would.
    pub fn into_raw_parts(sp: StackPtr<E>) -> (parts: (RawParts, LifetimeToken))
        ensures
            parts.0@ == sp@.raw(),
            parts.1@ == sp@.region_id,
    {
        let StackPtr { region_id, start, len, .. } = sp;
        (RawParts { start, len }, LifetimeToken::make(region_id))
    }

    /// Reassembles a handle from its raw parts, viewing the same cells as
    /// `kind` — this is where a retyping (most importantly the widening to an
    /// interface view) happens.  The reinterpretation is the caller's to
    /// justify: the element type chosen here and the token must be the ones
    /// the pair was disassembled under, and the pointee must still be live
    /// when the handle is next used.
    pub fn from_raw_parts(raw: RawParts, token: LifetimeToken, kind: PtrKind) -> (p: StackPtr<E>)
        requires
            kind == PtrKind::Value ==> raw@.len == 1,
        ensures
            p@ == PtrView::assemble(raw@, token@, kind),
            p@.wf(),
    {
        let RawParts { start, len } = raw;
        StackPtr { region_id: token.id(), start, len, kind, pointee: PhantomData }
    }

    /// Runs the pointee's destructor, exactly once per owned cell, and spends
    /// the handle.  This is the scope-exit destruction of the owning pointer,
    /// written out: the one owner releases the storage it guards.  It works
    /// the same whatever the handle's type tag — an interface-retyped handle
    /// still destroys the concrete cells it retained.
    pub fn drop(self, region: &mut Region<E>)
        requires
            self@.live_in(old(region)@),
            old(region)@.wf(),
        ensures
            final(region)@ == old(region)@.destroy_range(self@.start, self@.len),
            final(region)@.wf(),
    {
        let StackPtr { start, len, .. } = self;
        let n = region.slot_count();
        proof {
            assert(start + len <= n);
        }
        let mut k: usize = 0;
        while k < len
            invariant
                k <= len,
                start + len <= n,
                region@ == old(region)@.destroy_range(start as int, k as int),
                old(region)@.live_range(start as int, len as int),
                old(region)@.wf(),
            decreases len - k,
        {
            proof {
                assert(old(region)@.slots[start + k].wf());
                assert forall|i: int| 0 <= i < region@.slots.len() implies (
                #[trigger] region@.slots[i]).wf() by {
                    assert(old(region)@.slots[i].wf());
                }
            }
            region.destroy_at(start + k);
            proof {
                assert(region@.slots =~= old(region)@.destroy_range(
                    start as int,
                    k as int + 1,
                ).slots);
                assert(region@ =~= old(region)@.destroy_range(start as int, k as int + 1));
            }
            k = k + 1;
        }
        proof {
            assert forall|i: int| 0 <= i < region@.slots.len() implies (
            #[trigger] region@.slots[i]).wf() by {
                assert(old(region)@.slots[i].wf());
            }
        }
    }

    /// Spends an array-backed handle and hands its ownership to a consuming
    /// iterator over the same cells.  Nothing is yielded or destroyed yet;
    /// from here on the iterator is the one owner of every element.
    pub fn into_iter(self) -> (it: SliceIntoIter<E>)
        requires
            self@.kind == PtrKind::Slice,
        ensures
            it@.region_id == self@.region_id,
            it@.start == self@.start,
            it@.len == self@.len,
            it@.pos == 0,
            forall|r: RegionView<E>| self@.live_in(r) ==> #[trigger] it@.in_sync(r),
    {
        let StackPtr { region_id, start, len, .. } = self;
        SliceIntoIter::make(region_id, start, len)
    }
}

/// The coercion helper: widens a concrete handle into an interface-typed one
/// over the same storage, built purely from disassembly and reassembly.  The
/// returned handle keeps the extent of the original, which is what lets its
/// destruction still reach the right concrete cells.
pub fn coerce_stackptr<E>(sp: StackPtr<E>) -> (p: StackPtr<E>)
    ensures
        p@ == sp@.as_interface(),
{
    let ghost before = sp@;
    let (raw, token) = StackPtr::into_raw_parts(sp);
    let p = StackPtr::<E>::from_raw_parts(raw, token, PtrKind::Interface);
    proof {
        assert(p@ =~= before.as_interface());
    }
    p
}

/// A demonstration that the ownership protocol is sound to move around: a
/// freshly declared array handle may move from binding to binding (each move
/// transfers the one ownership token), and destruction through the last
/// binding still runs every element's destructor exactly once.
pub fn sound() {
    let mut region: Region<u64> = Region::new(0);
    let mut values: Vec<u64> = Vec::new();
    values.push(1);
    values.push(2);
    values.push(3);
    let slice = StackPtr::new_slice(&mut region, values);
    let slice2 = slice;
    let slice3 = slice2;
    slice3.drop(&mut region);
    assert(region@.slots[0].drops == 1);
    assert(region@.slots[1].drops == 1);
    assert(region@.slots[2].drops == 1);
}

} // verus!
