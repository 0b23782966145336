use stack_ptr::coerce_stackptr;
use stack_ptr::lifetime_of;
use stack_ptr::sound;
use stack_ptr::PtrKind;
use stack_ptr::Region;
use stack_ptr::SlotState;
use stack_ptr::StackPtr;

#[test]
fn destructor_runs_exactly_once() {
    let mut region: Region<String> = Region::new(0);
    let p = StackPtr::new(&mut region, String::from("owned"));
    assert_eq!(region.state_at(0), SlotState::Live);
    assert_eq!(region.drops_at(0), 0);
    p.drop(&mut region);
    assert_eq!(region.state_at(0), SlotState::Destroyed);
    assert_eq!(region.drops_at(0), 1);
}

#[test]
fn borrow_reads_declared_value() {
    let mut region: Region<u64> = Region::new(0);
    let p = StackPtr::new(&mut region, 42);
    assert_eq!(*p.borrow(&region), 42);
}

#[test]
fn borrow_mut_replaces_and_returns_previous() {
    let mut region: Region<u64> = Region::new(0);
    let p = StackPtr::new(&mut region, 42);
    let prev = p.borrow_mut(&mut region, 43);
    assert_eq!(prev, 42);
    assert_eq!(*p.borrow(&region), 43);
    assert_eq!(region.drops_at(0), 0);
}

#[test]
fn raw_parts_round_trip_is_a_no_op() {
    let mut region: Region<u64> = Region::new(0);
    let p = StackPtr::new(&mut region, 11);
    let (raw, token) = StackPtr::into_raw_parts(p);
    let p2: StackPtr<u64> = StackPtr::from_raw_parts(raw, token, PtrKind::Value);
    assert_eq!(*p2.borrow(&region), 11);
    p2.drop(&mut region);
    assert_eq!(region.state_at(0), SlotState::Destroyed);
    assert_eq!(region.drops_at(0), 1);
}

#[test]
fn reassembly_under_token_from_lifetime_of() {
    let mut region: Region<u64> = Region::new(7);
    let p = StackPtr::new(&mut region, 3);
    let (raw, _token) = StackPtr::into_raw_parts(p);
    let token = lifetime_of(&region);
    let p2: StackPtr<u64> = StackPtr::from_raw_parts(raw, token, PtrKind::Value);
    assert_eq!(*p2.borrow(&region), 3);
    p2.drop(&mut region);
    assert_eq!(region.drops_at(0), 1);
}

#[test]
fn coercion_preserves_destruction() {
    let mut region: Region<u64> = Region::new(0);
    let concrete = StackPtr::new(&mut region, 99);
    let interface = coerce_stackptr(concrete);
    assert_eq!(region.state_at(0), SlotState::Live);
    assert_eq!(region.drops_at(0), 0);
    interface.drop(&mut region);
    assert_eq!(region.state_at(0), SlotState::Destroyed);
    assert_eq!(region.drops_at(0), 1);
}

#[test]
fn disassembled_and_never_reassembled_leaks_without_destruction() {
    let mut region: Region<u64> = Region::new(0);
    let p = StackPtr::new(&mut region, 5);
    let (_raw, _token) = StackPtr::into_raw_parts(p);
    assert_eq!(region.state_at(0), SlotState::Live);
    assert_eq!(region.drops_at(0), 0);
}

#[test]
fn iteration_yields_all_elements_in_order() {
    let mut region: Region<i32> = Region::new(0);
    let slice = StackPtr::new_slice(&mut region, vec![1, 2, 3, 4, 5]);
    let mut it = slice.into_iter();
    let mut read: Vec<i32> = Vec::new();
    while let Some(x) = it.next(&mut region) {
        read.push(x);
    }
    assert_eq!(read, vec![1, 2, 3, 4, 5]);
    assert!(it.next(&mut region).is_none());
    it.drop(&mut region);
    for k in 0..5 {
        assert_eq!(region.state_at(k), SlotState::Moved);
        assert_eq!(region.drops_at(k), 0);
    }
}

#[test]
fn abandoned_iteration_destroys_exactly_the_remainder() {
    let mut region: Region<i32> = Region::new(0);
    let slice = StackPtr::new_slice(&mut region, vec![10, 20, 30, 40, 50]);
    let mut it = slice.into_iter();
    assert_eq!(it.remaining(), 5);
    assert_eq!(it.next(&mut region), Some(10));
    assert_eq!(it.next(&mut region), Some(20));
    assert_eq!(it.remaining(), 3);
    it.drop(&mut region);
    for k in 0..2 {
        assert_eq!(region.state_at(k), SlotState::Moved);
        assert_eq!(region.drops_at(k), 0);
    }
    for k in 2..5 {
        assert_eq!(region.state_at(k), SlotState::Destroyed);
        assert_eq!(region.drops_at(k), 1);
    }
}

#[test]
fn empty_slice_iterates_nothing() {
    let mut region: Region<u8> = Region::new(0);
    let slice = StackPtr::new_slice(&mut region, Vec::new());
    let mut it = slice.into_iter();
    assert_eq!(it.remaining(), 0);
    assert!(it.next(&mut region).is_none());
    it.drop(&mut region);
    assert_eq!(region.slot_count(), 0);
}

#[test]
fn two_scopes_are_independent() {
    let mut outer: Region<u64> = Region::new(1);
    let mut inner: Region<u64> = Region::new(2);
    let a = StackPtr::new(&mut outer, 10);
    let b = StackPtr::new(&mut inner, 20);
    b.drop(&mut inner);
    assert_eq!(outer.state_at(0), SlotState::Live);
    assert_eq!(inner.drops_at(0), 1);
    a.drop(&mut outer);
    assert_eq!(outer.drops_at(0), 1);
}

#[test]
fn regions_know_their_identity() {
    let region: Region<u8> = Region::new(17);
    assert_eq!(region.id(), 17);
    assert_eq!(region.slot_count(), 0);
}

#[test]
fn sound_demonstration_runs() {
    sound();
}
