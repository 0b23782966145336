use stack_ptr::Region;
use stack_ptr::StackPtr;

#[test]
fn small_tests_test_basic() {
    let mut region: Region<i32> = Region::new(0);
    let slice = StackPtr::new_slice(&mut region, vec![1, 2, 3, 4, 5]);
    let mut read: Vec<i32> = Vec::new();
    for k in 0..5 {
        read.push(*slice.borrow_at(&region, k));
    }
    assert_eq!(read, vec![1, 2, 3, 4, 5]);
}
