use rvm::fault::VmFault;
use rvm::heap::{Heap, DEFAULT_HEAP_LIMIT};

#[test]
fn new_heap_is_empty() {
    let heap = Heap::new();
    assert!(heap.memory.is_empty());
    assert_eq!(heap.limit, DEFAULT_HEAP_LIMIT);
}

#[test]
fn allocate_returns_the_old_end_and_zeroes_the_block() {
    let mut heap = Heap::new();
    assert_eq!(heap.allocate(3), Ok(0));
    assert_eq!(heap.memory, vec![0, 0, 0]);
    assert_eq!(heap.allocate(2), Ok(3));
    assert_eq!(heap.memory, vec![0, 0, 0, 0, 0]);
}

#[test]
fn allocations_rise_and_do_not_overlap() {
    let mut heap = Heap::new();
    let sizes = [4usize, 1, 7, 2];
    let mut end = 0usize;
    for size in sizes {
        let base = heap.allocate(size).unwrap();
        assert_eq!(base, end);
        end = base + size;
    }
    assert_eq!(heap.memory.len(), 14);
}

#[test]
fn empty_allocation_returns_the_same_address_twice() {
    let mut heap = Heap::new();
    assert_eq!(heap.allocate(0), Ok(0));
    assert_eq!(heap.allocate(0), Ok(0));
    assert!(heap.memory.is_empty());
}

#[test]
fn allocate_keeps_earlier_words() {
    let mut heap = Heap::new();
    heap.allocate(2).unwrap();
    heap.put(1, 99).unwrap();
    heap.allocate(2).unwrap();
    assert_eq!(heap.memory, vec![0, 99, 0, 0]);
}

#[test]
fn allocate_beyond_the_limit_is_a_fault_and_changes_nothing() {
    let mut heap = Heap::new();
    heap.limit = 4;
    assert_eq!(heap.allocate(3), Ok(0));
    assert_eq!(heap.allocate(2), Err(VmFault::HeapExhausted));
    assert_eq!(heap.memory.len(), 3);
    assert_eq!(heap.allocate(1), Ok(3));
    assert_eq!(heap.allocate(usize::MAX), Err(VmFault::HeapExhausted));
}

#[test]
fn put_then_get_returns_the_value() {
    let mut heap = Heap::new();
    heap.allocate(4).unwrap();
    assert_eq!(heap.put(2, 0xDEAD_BEEF), Ok(()));
    assert_eq!(heap.get(2), Ok(0xDEAD_BEEF));
    assert_eq!(heap.get(1), Ok(0));
    assert_eq!(heap.get(3), Ok(0));
}

#[test]
fn put_outside_any_allocation_is_a_fault() {
    let mut heap = Heap::new();
    assert_eq!(heap.put(0, 1), Err(VmFault::HeapAddressOutOfRange));
    heap.allocate(2).unwrap();
    assert_eq!(heap.put(2, 1), Err(VmFault::HeapAddressOutOfRange));
    assert_eq!(heap.memory, vec![0, 0]);
}

#[test]
fn get_outside_any_allocation_is_a_fault() {
    let mut heap = Heap::new();
    assert_eq!(heap.get(0), Err(VmFault::HeapAddressOutOfRange));
    heap.allocate(2).unwrap();
    assert_eq!(heap.get(1), Ok(0));
    assert_eq!(heap.get(2), Err(VmFault::HeapAddressOutOfRange));
}
