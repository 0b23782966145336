use stack_ptr::coerce_stackptr;
use stack_ptr::Region;
use stack_ptr::StackPtr;

#[test]
fn lib_test_basic() {
    let mut region: Region<i32> = Region::new(0);
    let slice = StackPtr::new_slice(&mut region, vec![1, 2, 3, 4, 5]);
    let mut read: Vec<i32> = Vec::new();
    for k in 0..5 {
        read.push(*slice.borrow_at(&region, k));
    }
    assert_eq!(read, vec![1, 2, 3, 4, 5]);
}

fn execute_all(region: &mut Region<u64>, closures: Vec<StackPtr<u64>>) {
    for closure in closures {
        closure.drop(region);
    }
}

#[test]
fn test_execute_all() {
    let mut region: Region<u64> = Region::new(0);
    let callback1 = StackPtr::new(&mut region, 1);
    let callback1 = coerce_stackptr(callback1);
    let callback2 = StackPtr::new(&mut region, 2);
    let callback2 = coerce_stackptr(callback2);
    execute_all(&mut region, vec![callback1, callback2]);
    assert_eq!(region.drops_at(0), 1);
    assert_eq!(region.drops_at(1), 1);
}
