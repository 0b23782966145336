//! The storage region standing for one lexical scope.
//!
//! A `Region` is the arena rendering of a stack frame: the block in which an
//! owned value is declared becomes an explicit object that holds the value's
//! storage cells and, alongside each cell, a ledger of how often the cell's
//! destructor has run.  The region also plays the role of the scope marker:
//! the token returned by [`lifetime_of`] carries the region's identity, and a
//! pointer may only ever be used together with the region it was declared in.

use vstd::prelude::*;

verus! {

/// The lifecycle state of one storage cell.
///
/// `Live` — the cell holds a fully-initialized value that exactly one owner
/// will destroy.  `Moved` — the value was handed out by value (yielded by an
/// iterator, or the ownership left the region some other way); the cell's
/// destructor must never run.  `Destroyed` — the cell's destructor has run.
#[derive(Clone, Copy, Debug, PartialEq, Eq, Structural)]
pub enum SlotState {
    Live,
    Moved,
    Destroyed,
}

/// The mathematical model of one storage cell: its contents (present exactly
/// while the cell is live), its lifecycle state, and how many times its
/// destructor has run.
pub struct SlotView<E> {
    pub value: Option<E>,
    pub state: SlotState,
    pub drops: nat,
}

impl<E> SlotView<E> {
    /// A cell is well formed when its contents match its state and its
    /// destructor has run at most once — the exactly-once-destroy discipline
    /// as a per-cell invariant.
    pub open spec fn wf(self) -> bool {
        &&& self.state == SlotState::Live <==> self.value is Some
        &&& self.drops <= 1
        &&& (self.state == SlotState::Destroyed <==> self.drops == 1)
    }

    /// A freshly declared cell: live, holding `v`, destructor never run.
    pub open spec fn live_holding(v: E) -> SlotView<E> {
        SlotView { value: Some(v), state: SlotState::Live, drops: 0 }
    }

    /// The cell after its destructor ran.
    pub open spec fn destroyed(self) -> SlotView<E> {
        SlotView { value: None, state: SlotState::Destroyed, drops: self.drops + 1 }
    }

    /// The cell after its value was handed out by value: the destructor is now
    /// the new owner's business and must not run here.
    pub open spec fn moved_out(self) -> SlotView<E> {
        SlotView { value: None, state: SlotState::Moved, drops: self.drops }
    }
}

/// The mathematical model of a region: its identity and the sequence of its
/// storage cells.
#[verifier::ext_equal]
pub struct RegionView<E> {
    pub id: u64,
    pub slots: Seq<SlotView<E>>,
}

impl<E> RegionView<E> {
    /// Every cell obeys the per-cell discipline.
    pub open spec fn wf(self) -> bool {
        forall|i: int| 0 <= i < self.slots.len() ==> (#[trigger] self.slots[i]).wf()
    }

    /// The cells `[start, start + len)` exist and are all live.
    pub open spec fn live_range(self, start: int, len: int) -> bool {
        &&& 0 <= start
        &&& 0 <= len
        &&& start + len <= self.slots.len()
        &&& forall|i: int| start <= i < start + len ==> (#[trigger] self.slots[i]).state
            == SlotState::Live
    }

    /// The value held by cell `i`.
    pub open spec fn value_at(self, i: int) -> E
        recommends
            0 <= i < self.slots.len(),
            self.slots[i].value is Some,
    {
        self.slots[i].value->0
    }

    /// The values of the cells `[start, start + len)`, in cell order.
    pub open spec fn values_in(self, start: int, len: int) -> Seq<E>
        recommends
            self.live_range(start, len),
    {
        Seq::new(len as nat, |k: int| self.value_at(start + k))
    }

    /// The region after declaring one more live cell holding `v`.
    pub open spec fn push_live(self, v: E) -> RegionView<E> {
        RegionView { id: self.id, slots: self.slots.push(SlotView::live_holding(v)) }
    }

    /// The region after declaring a run of live cells holding the values of
    /// `vs`, in order.
    pub open spec fn push_live_all(self, vs: Seq<E>) -> RegionView<E> {
        RegionView {
            id: self.id,
            slots: self.slots + vs.map_values(|v: E| SlotView::live_holding(v)),
        }
    }

    /// The region after the destructor of cell `i` ran.
    pub open spec fn destroy_at(self, i: int) -> RegionView<E> {
        RegionView { id: self.id, slots: self.slots.update(i, self.slots[i].destroyed()) }
    }

    /// The region after the destructors of the cells `[start, start + len)`
    /// ran, each exactly once.
    pub open spec fn destroy_range(self, start: int, len: int) -> RegionView<E> {
        RegionView {
            id: self.id,
            slots: Seq::new(
                self.slots.len(),
                |i: int|
                    if start <= i < start + len {
                        self.slots[i].destroyed()
                    } else {
                        self.slots[i]
                    },
            ),
        }
    }

    /// The region after the value of cell `i` was handed out by value.
    pub open spec fn move_out_at(self, i: int) -> RegionView<E> {
        RegionView { id: self.id, slots: self.slots.update(i, self.slots[i].moved_out()) }
    }

    /// The region after the values of the cells `[start, start + len)` were
    /// handed out by value, one after the other.
    pub open spec fn move_out_range(self, start: int, len: int) -> RegionView<E> {
        RegionView {
            id: self.id,
            slots: Seq::new(
                self.slots.len(),
                |i: int|
                    if start <= i < start + len {
                        self.slots[i].moved_out()
                    } else {
                        self.slots[i]
                    },
            ),
        }
    }

    /// The region after the value of live cell `i` was overwritten with `v`;
    /// the cell stays live and its ledger is untouched.
    pub open spec fn write_at(self, i: int, v: E) -> RegionView<E> {
        RegionView {
            id: self.id,
            slots: self.slots.update(i, SlotView { value: Some(v), ..self.slots[i] }),
        }
    }
}

struct Slot<E> {
    value: Option<E>,
    state: SlotState,
    drops: u64,
}

impl<E> View for Slot<E> {
    type V = SlotView<E>;

    closed spec fn view(&self) -> SlotView<E> {
        SlotView { value: self.value, state: self.state, drops: self.drops as nat }
    }
}

/// A storage region: the arena rendering of one lexical scope.  It owns the
/// cells that scope-declared values live in, and it is the only place where
/// their destructors run.  Its identity ties every pointer and lifetime token
/// back to it; the caller keeps region identities distinct, just as distinct
/// lexical scopes are distinct.
pub struct Region<E> {
    id: u64,
    slots: Vec<Slot<E>>,
}

impl<E> View for Region<E> {
    type V = RegionView<E>;

    closed spec fn view(&self) -> RegionView<E> {
        RegionView {
            id: self.id,
            slots: Seq::new(self.slots@.len(), |i: int| self.slots@[i]@),
        }
    }
}

/// An opaque token carrying the identity of the scope a pointer is bound to.
/// It is the rendering of the lifetime tag that the scope marker's address
/// yields: it grants no access by itself, it only names the region.
#[derive(Clone, Copy)]
pub struct LifetimeToken {
    pub(crate) region_id: u64,
}

impl View for LifetimeToken {
    type V = u64;

    closed spec fn view(&self) -> u64 {
        self.region_id
    }
}

impl LifetimeToken {
    /// Makes the token naming the region with identity `region_id`.
    pub(crate) fn make(region_id: u64) -> (token: LifetimeToken)
        ensures
            token@ == region_id,
    {
        LifetimeToken { region_id }
    }

    /// The identity of the region the token names.
    pub(crate) fn id(&self) -> (id: u64)
        ensures
            id == self@,
    {
        self.region_id
    }
}

/// Derives the lifetime token of a region, as taking a reference to the scope
/// marker derives the lifetime that bounds every pointer declared in the
/// scope.
pub fn lifetime_of<E>(region: &Region<E>) -> (token: LifetimeToken)
    ensures
        token@ == region@.id,
{
    LifetimeToken { region_id: region.id }
}

impl<E> Region<E> {
    /// Opens a region standing for a lexical scope, with no cells yet.  The
    /// caller chooses `id` and must keep the identities of regions it works
    /// with distinct, as distinct scopes are.
    pub fn new(id: u64) -> (region: Region<E>)
        ensures
            region@.id == id,
            region@.slots == Seq::<SlotView<E>>::empty(),
            region@.wf(),
    {
        let region = Region { id, slots: Vec::new() };
        proof {
            assert(region@.slots =~= Seq::<SlotView<E>>::empty());
        }
        region
    }

    /// The region's identity.
    pub fn id(&self) -> (id: u64)
        ensures
            id == self@.id,
    {
        self.id
    }

    /// How many cells the region holds, in every state together.
    pub fn slot_count(&self) -> (n: usize)
        ensures
            n == self@.slots.len(),
    {
        self.slots.len()
    }

    /// The lifecycle state of cell `i`.
    pub fn state_at(&self, i: usize) -> (s: SlotState)
        requires
            i < self@.slots.len(),
        ensures
            s == self@.slots[i as int].state,
    {
        self.slots[i].state
    }

    /// How many times the destructor of cell `i` has run.
    pub fn drops_at(&self, i: usize) -> (n: u64)
        requires
            i < self@.slots.len(),
        ensures
            n == self@.slots[i as int].drops,
    {
        self.slots[i].drops
    }

    /// Declares one live cell holding `value`; returns its index.
    pub(crate) fn push_live(&mut self, value: E) -> (i: usize)
        ensures
            final(self)@ == old(self)@.push_live(value),
            i == old(self)@.slots.len(),
    {
        let i = self.slots.len();
        self.slots.push(Slot { value: Some(value), state: SlotState::Live, drops: 0 });
        proof {
            assert(self@ =~= old(self)@.push_live(value));
        }
        i
    }

    /// Reads the value of live cell `i`.
    pub(crate) fn read_at(&self, i: usize) -> (value: &E)
        requires
            i < self@.slots.len(),
            self@.slots[i as int].state == SlotState::Live,
            self@.wf(),
        ensures
            *value == self@.value_at(i as int),
    {
        self.slots[i].value.as_ref().unwrap()
    }

    /// Replaces the value of live cell `i`, returning the previous value.
    pub(crate) fn replace_at(&mut self, i: usize, value: E) -> (prev: E)
        requires
            i < old(self)@.slots.len(),
            old(self)@.slots[i as int].state == SlotState::Live,
            old(self)@.wf(),
        ensures
            prev == old(self)@.value_at(i as int),
            final(self)@ == old(self)@.write_at(i as int, value),
    {
        let slot = &mut self.slots[i];
        let taken = slot.value.take();
        slot.value = Some(value);
        proof {
            assert(self@ =~= old(self)@.write_at(i as int, value));
        }
        taken.unwrap()
    }

    /// Hands the value of live cell `i` out by value; the cell becomes
    /// `Moved` and its destructor will never run here.
    pub(crate) fn take_at(&mut self, i: usize) -> (value: E)
        requires
            i < old(self)@.slots.len(),
            old(self)@.slots[i as int].state == SlotState::Live,
            old(self)@.wf(),
        ensures
            value == old(self)@.value_at(i as int),
            final(self)@ == old(self)@.move_out_at(i as int),
    {
        let slot = &mut self.slots[i];
        let taken = slot.value.take();
        slot.state = SlotState::Moved;
        proof {
            assert(self@ =~= old(self)@.move_out_at(i as int));
        }
        taken.unwrap()
    }

    /// Runs the destructor of live cell `i`: the value is dropped and the
    /// cell's ledger records the one destruction.
    pub(crate) fn destroy_at(&mut self, i: usize)
        requires
            i < old(self)@.slots.len(),
            old(self)@.slots[i as int].state == SlotState::Live,
            old(self)@.wf(),
        ensures
            final(self)@ == old(self)@.destroy_at(i as int),
    {
        proof {
            assert(old(self)@.slots[i as int].wf());
        }
        let slot = &mut self.slots[i];
        let _dropped = slot.value.take();
        slot.state = SlotState::Destroyed;
        slot.drops = slot.drops + 1;
        proof {
            assert(self@ =~= old(self)@.destroy_at(i as int));
        }
    }
}

} // verus!
