//! An owning pointer to scope-local storage, verified.
//!
//! The library provides [`StackPtr`], a move-only handle that owns exactly one
//! value (or one array of values) whose storage belongs to a lexical scope
//! rather than to the heap.  The scope itself is modelled by a [`Region`]: an
//! explicit arena of storage cells that stands for the stack frame in which
//! the value was declared.  The region keeps, for every cell, a destruction
//! ledger, so that the central guarantee of the library — every owned value is
//! destroyed exactly once, never earlier than its owner releases it and never
//! twice — is stated in the contracts and proved rather than trusted.
//!
//! The handle can be disassembled into a raw pair (address and lifetime
//! token), retyped, and reassembled; this is how a concrete handle is widened
//! into an interface-typed one while preserving the single-owner,
//! exactly-once-destroy discipline.  An array-backed handle can be turned into
//! a consuming iterator that yields each element by value once and destroys
//! whatever it did not yield.

mod iter;
mod laws;
mod region;
mod stack_ptr;

pub use iter::IterView;
pub use iter::SliceIntoIter;
pub use laws::lemma_borrow_reads_declared_value;
pub use laws::lemma_coerce_preserves_destruction;
pub use laws::lemma_destructor_runs_exactly_once;
pub use laws::lemma_iteration_yields_then_destroys_rest;
pub use laws::lemma_raw_parts_round_trip;
pub use region::lifetime_of;
pub use region::LifetimeToken;
pub use region::Region;
pub use region::RegionView;
pub use region::SlotState;
pub use region::SlotView;
pub use stack_ptr::coerce_stackptr;
pub use stack_ptr::sound;
pub use stack_ptr::PtrKind;
pub use stack_ptr::PtrView;
pub use stack_ptr::RawParts;
pub use stack_ptr::RawView;
pub use stack_ptr::StackPtr;
