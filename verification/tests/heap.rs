use brilirs::allocator::{BrilAllocator, BrilPointer, Pointer, Value};
use brilirs::basic_heap::BasicHeap;
use brilirs::error::InterpError;

fn pointer_of(v: Value<Pointer>) -> Pointer {
    match v {
        Value::Pointer(p) => p,
        other => panic!("expected a pointer, found {:?}", other),
    }
}

#[test]
fn a_new_heap_is_empty() {
    let heap = BasicHeap::default();
    assert!(heap.is_empty());
}

#[test]
fn alloc_hands_out_increasing_ids_at_offset_zero() {
    let mut heap = BasicHeap::default();
    let a = pointer_of(heap.allocate(3).unwrap());
    let b = pointer_of(heap.allocate(0).unwrap());
    assert_eq!(a, Pointer { base: 0, offset: 0 });
    assert_eq!(b, Pointer { base: 1, offset: 0 });
    assert!(!heap.is_empty());
}

#[test]
fn alloc_of_a_negative_amount_fails() {
    let mut heap = BasicHeap::default();
    assert!(matches!(heap.allocate(-1), Err(InterpError::CannotAllocSize(-1))));
    assert!(heap.is_empty());
}

#[test]
fn fresh_cells_read_as_uninitialized() {
    let mut heap = BasicHeap::default();
    let p = pointer_of(heap.allocate(3).unwrap());
    for i in 0..3 {
        assert!(matches!(heap.read(&p.add(i)), Err(InterpError::UsingUninitializedMemory)));
    }
}

#[test]
fn a_written_cell_reads_back_and_its_neighbours_stay_unwritten() {
    let mut heap = BasicHeap::default();
    let p = pointer_of(heap.allocate(3).unwrap());
    heap.write(&p.add(1), Value::Int(7)).unwrap();
    assert_eq!(*heap.read(&p.add(1)).unwrap(), Value::Int(7));
    assert!(matches!(heap.read(&p), Err(InterpError::UsingUninitializedMemory)));
    assert!(matches!(heap.read(&p.add(2)), Err(InterpError::UsingUninitializedMemory)));
}

#[test]
fn access_out_of_bounds_fails() {
    let mut heap = BasicHeap::default();
    let p = pointer_of(heap.allocate(2).unwrap());
    assert!(matches!(heap.read(&p.add(2)), Err(InterpError::InvalidMemoryAccess(0, 2))));
    assert!(matches!(heap.read(&p.add(-1)), Err(InterpError::InvalidMemoryAccess(0, -1))));
    assert!(matches!(
        heap.write(&p.add(2), Value::Bool(true)),
        Err(InterpError::InvalidMemoryAccess(0, 2))
    ));
    assert!(matches!(
        heap.write(&Pointer { base: 9, offset: 0 }, Value::Bool(true)),
        Err(InterpError::InvalidMemoryAccess(9, 0))
    ));
}

#[test]
fn free_with_a_nonzero_offset_fails_whether_the_base_is_live_or_not() {
    let mut heap = BasicHeap::default();
    let p = pointer_of(heap.allocate(2).unwrap());
    assert!(matches!(heap.free(&p.add(1)), Err(InterpError::IllegalFree(0, 1))));
    assert!(matches!(
        heap.free(&Pointer { base: 5, offset: 3 }),
        Err(InterpError::IllegalFree(5, 3))
    ));
}

#[test]
fn a_free_that_fails_leaves_the_allocation_as_it_is() {
    let mut heap = BasicHeap::default();
    let p = pointer_of(heap.allocate(2).unwrap());
    heap.write(&p, Value::Int(1)).unwrap();
    assert!(matches!(heap.free(&p.add(1)), Err(InterpError::IllegalFree(0, 1))));
    assert!(!heap.is_empty());
    assert_eq!(*heap.read(&p).unwrap(), Value::Int(1));
    assert!(matches!(heap.free(&Pointer { base: 7, offset: 0 }), Err(InterpError::IllegalFree(7, 0))));
    assert!(!heap.is_empty());
    heap.free(&p).unwrap();
    assert!(heap.is_empty());
}

#[test]
fn free_of_an_unknown_base_fails() {
    let mut heap = BasicHeap::default();
    assert!(matches!(
        heap.free(&Pointer { base: 0, offset: 0 }),
        Err(InterpError::IllegalFree(0, 0))
    ));
}

#[test]
fn use_after_free_fails_and_ids_are_not_reused() {
    let mut heap = BasicHeap::default();
    let p = pointer_of(heap.allocate(2).unwrap());
    heap.write(&p, Value::Int(1)).unwrap();
    heap.free(&p).unwrap();
    assert!(heap.is_empty());
    let q = pointer_of(heap.allocate(2).unwrap());
    assert_eq!(q.base, 1);
    assert!(matches!(heap.read(&p), Err(InterpError::InvalidMemoryAccess(0, 0))));
    assert!(matches!(heap.write(&p, Value::Int(2)), Err(InterpError::InvalidMemoryAccess(0, 0))));
    assert!(matches!(heap.free(&p), Err(InterpError::IllegalFree(0, 0))));
    heap.free(&q).unwrap();
    assert!(heap.is_empty());
}

#[test]
fn pointer_addition_keeps_the_base_and_wraps() {
    let p = Pointer { base: 4, offset: 2 };
    assert_eq!(p.add(3), Pointer { base: 4, offset: 5 });
    assert_eq!(p.add(-5), Pointer { base: 4, offset: -3 });
    assert_eq!(Pointer { base: 4, offset: i64::MAX }.add(1), Pointer { base: 4, offset: i64::MIN });
    assert_eq!(p, Pointer { base: 4, offset: 2 });
}

#[test]
fn the_default_value_is_uninitialized() {
    assert_eq!(Value::<Pointer>::default(), Value::Uninitialized);
}
