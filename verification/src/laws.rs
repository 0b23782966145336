//! The laws of the ownership protocol, stated over the mathematical model
//! and proved once and for all.
//!
//! Every executable operation of the library states its effect as a
//! transition on [`RegionView`] and [`PtrView`]; the proof functions here tie
//! those transitions together into the guarantees the library is for —
//! exactly-once destruction, borrow identity, raw-parts round trips,
//! coercion-safe destruction, and partial-iteration cleanup.

use vstd::prelude::*;

use crate::region::RegionView;
use crate::region::SlotState;
use crate::stack_ptr::PtrView;

verus! {

/// Constructing an owning pointer over a value and then dropping it runs the
/// value's destructor exactly once, at the drop and not before: while the
/// pointer lives the cell's ledger shows no invocation (the forgotten
/// original binding runs none), and after the drop it shows exactly one.
pub proof fn lemma_destructor_runs_exactly_once<E>(r: RegionView<E>, v: E)
    requires
        r.wf(),
    ensures
        ({
            let i = r.slots.len() as int;
            let declared = r.push_live(v);
            &&& declared.slots[i].value == Some(v)
            &&& declared.slots[i].state == SlotState::Live
            &&& declared.slots[i].drops == 0
            &&& declared.destroy_range(i, 1).slots[i].state == SlotState::Destroyed
            &&& declared.destroy_range(i, 1).slots[i].drops == 1
            &&& declared.destroy_range(i, 1).wf()
        }),
{
    let i = r.slots.len() as int;
    let declared = r.push_live(v);
    let dropped = declared.destroy_range(i, 1);
    assert forall|j: int| 0 <= j < dropped.slots.len() implies (
    #[trigger] dropped.slots[j]).wf() by {
        if j < i {
            assert(r.slots[j].wf());
        }
    }
}

/// What the accessors observe is exactly the value the pointer was
/// constructed over: declaring a single value and reading it back yields that
/// value, and declaring an array and reading its elements back yields the
/// same elements in the same order.
pub proof fn lemma_borrow_reads_declared_value<E>(r: RegionView<E>, v: E, vs: Seq<E>)
    ensures
        r.push_live(v).value_at(r.slots.len() as int) == v,
        r.push_live_all(vs).values_in(r.slots.len() as int, vs.len() as int) == vs,
{
    assert(r.push_live_all(vs).values_in(r.slots.len() as int, vs.len() as int) =~= vs);
}

/// Disassembling a handle and reassembling the raw pair under the same token
/// and the same type tag yields the very handle that was taken apart.  Every
/// contract of the library speaks only of the handle's model, so the
/// reassembled handle behaves identically to the original for every
/// subsequent borrow and drop.
pub proof fn lemma_raw_parts_round_trip(p: PtrView)
    ensures
        PtrView::assemble(p.raw(), p.region_id, p.kind) == p,
{
}

/// Widening a handle to the interface view preserves destruction: the
/// coerced handle still owns exactly the cells of the concrete one, and
/// dropping it destroys exactly those cells, each exactly once — the erased
/// type tag changes nothing about which destructors run.
pub proof fn lemma_coerce_preserves_destruction<E>(r: RegionView<E>, p: PtrView)
    requires
        r.wf(),
        p.live_in(r),
    ensures
        p.as_interface().live_in(r),
        p.as_interface().region_id == p.region_id,
        r.destroy_range(p.as_interface().start, p.as_interface().len) == r.destroy_range(
            p.start,
            p.len,
        ),
        forall|i: int|
            p.start <= i < p.start + p.len ==> (#[trigger] r.destroy_range(
                p.start,
                p.len,
            ).slots[i]).state == SlotState::Destroyed,
        forall|i: int|
            p.start <= i < p.start + p.len ==> (#[trigger] r.destroy_range(
                p.start,
                p.len,
            ).slots[i]).drops == 1,
        r.destroy_range(p.start, p.len).wf(),
{
    let dropped = r.destroy_range(p.start, p.len);
    assert forall|i: int| p.start <= i < p.start + p.len implies (
    #[trigger] dropped.slots[i]).drops == 1 by {
        assert(r.slots[i].wf());
    }
    assert forall|j: int| 0 <= j < dropped.slots.len() implies (
    #[trigger] dropped.slots[j]).wf() by {
        assert(r.slots[j].wf());
    }
}

/// Consuming iteration over an array of `len` live cells yields the elements
/// in cell order — after any `j` yields the next one handed out is still the
/// untouched `j`-th original element — and tearing the iterator down after
/// `k` yields destroys exactly the `len - k` elements never yielded, each
/// exactly once, while the `k` yielded cells stay `Moved` with their
/// destructors never run here.
pub proof fn lemma_iteration_yields_then_destroys_rest<E>(
    r: RegionView<E>,
    start: int,
    len: int,
    k: int,
)
    requires
        r.wf(),
        r.live_range(start, len),
        0 <= k <= len,
    ensures
        forall|j: int|
            0 <= j < len ==> #[trigger] r.move_out_range(start, j).value_at(start + j)
                == r.value_at(start + j),
        forall|j: int|
            0 <= j < len ==> #[trigger] r.move_out_range(start, j).move_out_at(start + j)
                == r.move_out_range(start, j + 1),
        forall|i: int|
            start <= i < start + k ==> (#[trigger] r.move_out_range(start, k).destroy_range(
                start + k,
                len - k,
            ).slots[i]).state == SlotState::Moved,
        forall|i: int|
            start <= i < start + k ==> (#[trigger] r.move_out_range(start, k).destroy_range(
                start + k,
                len - k,
            ).slots[i]).drops == 0,
        forall|i: int|
            start + k <= i < start + len ==> (#[trigger] r.move_out_range(start, k).destroy_range(
                start + k,
                len - k,
            ).slots[i]).state == SlotState::Destroyed,
        forall|i: int|
            start + k <= i < start + len ==> (#[trigger] r.move_out_range(start, k).destroy_range(
                start + k,
                len - k,
            ).slots[i]).drops == 1,
        r.move_out_range(start, k).destroy_range(start + k, len - k).wf(),
{
    assert forall|j: int| 0 <= j < len implies #[trigger] r.move_out_range(start, j).move_out_at(
        start + j,
    ) == r.move_out_range(start, j + 1) by {
        assert(r.move_out_range(start, j).move_out_at(start + j) =~= r.move_out_range(
            start,
            j + 1,
        ));
    }
    let after_drop = r.move_out_range(start, k).destroy_range(start + k, len - k);
    assert forall|i: int| start <= i < start + k implies (#[trigger] after_drop.slots[i]).state
        == SlotState::Moved && after_drop.slots[i].drops == 0 by {
        assert(r.slots[i].wf());
    }
    assert forall|i: int| start + k <= i < start + len implies (
    #[trigger] after_drop.slots[i]).state == SlotState::Destroyed && after_drop.slots[i].drops
        == 1 by {
        assert(r.slots[i].wf());
    }
    assert forall|j: int| 0 <= j < after_drop.slots.len() implies (
    #[trigger] after_drop.slots[j]).wf() by {
        assert(r.slots[j].wf());
    }
}

} // verus!
