use cairo_rs::bignum::BigNum;
use cairo_rs::memory::{Memory, MemoryError};
use cairo_rs::relocatable::{MaybeRelocatable, Relocatable};

fn addr(s: usize, o: usize) -> Relocatable {
    Relocatable { segment_index: s, offset: o }
}

fn num(n: u32) -> MaybeRelocatable {
    MaybeRelocatable::Int(BigNum::from_u32(n))
}

fn rel(s: usize, o: usize) -> MaybeRelocatable {
    MaybeRelocatable::RelocatableValue(addr(s, o))
}

/// Builds a memory from (address, value) pairs, allocating segments as needed.
fn memory_of(cells: &[(Relocatable, MaybeRelocatable)]) -> Memory {
    let mut memory = Memory::new();
    for (k, v) in cells {
        let mut res = memory.insert(k, v);
        while matches!(res, Err(MemoryError::UnallocatedSegment(_, _))) {
            memory.data.push(Vec::new());
            res = memory.insert(k, v);
        }
    }
    memory
}

fn check_memory_address(memory: &Memory, a: Relocatable, v: MaybeRelocatable) {
    assert_eq!(memory.get(&a), Ok(Some(&v)));
}

#[test]
fn memory_macro_test() {
    let mut memory = Memory::new();
    for _ in 0..2 {
        memory.data.push(Vec::new());
    }
    memory.insert(&addr(1, 2), &num(1)).unwrap();
    memory.insert(&addr(1, 1), &rel(1, 0)).unwrap();
    let mem = memory_of(&[(addr(1, 2), num(1)), (addr(1, 1), rel(1, 0))]);
    assert_eq!(memory.data, mem.data);
}

#[test]
fn check_memory_macro_test() {
    let mut memory = Memory::new();
    for _ in 0..2 {
        memory.data.push(Vec::new());
    }
    memory.insert(&addr(1, 1), &rel(1, 0)).unwrap();
    memory.insert(&addr(1, 2), &num(1)).unwrap();
    for (a, v) in [(addr(1, 1), rel(1, 0)), (addr(1, 2), num(1))] {
        check_memory_address(&memory, a, v);
    }
}

#[test]
fn check_memory_address_macro_test() {
    let mut memory = Memory::new();
    for _ in 0..2 {
        memory.data.push(Vec::new());
    }
    memory.insert(&addr(1, 1), &rel(1, 0)).unwrap();
    memory.insert(&addr(1, 2), &num(1)).unwrap();
    check_memory_address(&memory, addr(1, 1), rel(1, 0));
    check_memory_address(&memory, addr(1, 2), num(1));
}

#[test]
fn reinsert_same_value_succeeds() {
    let mut memory = Memory::new();
    memory.add_segment();
    assert_eq!(memory.insert(&addr(0, 3), &num(5)), Ok(()));
    assert_eq!(memory.insert(&addr(0, 3), &num(5)), Ok(()));
    assert_eq!(memory.data[0].len(), 4);
    check_memory_address(&memory, addr(0, 3), num(5));
}

#[test]
fn insert_different_value_is_inconsistent() {
    let mut memory = Memory::new();
    memory.add_segment();
    memory.insert(&addr(0, 0), &num(5)).unwrap();
    assert_eq!(
        memory.insert(&addr(0, 0), &num(6)),
        Err(MemoryError::InconsistentMemory(addr(0, 0)))
    );
    assert_eq!(
        memory.insert(&addr(0, 0), &rel(0, 0)),
        Err(MemoryError::InconsistentMemory(addr(0, 0)))
    );
    check_memory_address(&memory, addr(0, 0), num(5));
}

#[test]
fn insert_unallocated_then_add_segment() {
    let mut memory = Memory::new();
    assert_eq!(
        memory.insert(&addr(0, 0), &num(1)),
        Err(MemoryError::UnallocatedSegment(0, 0))
    );
    assert_eq!(memory.add_segment(), 0);
    assert_eq!(memory.insert(&addr(0, 0), &num(1)), Ok(()));
    assert_eq!(
        memory.insert(&addr(1, 0), &num(1)),
        Err(MemoryError::UnallocatedSegment(1, 1))
    );
}

#[test]
fn get_hole_is_absent_unallocated_is_error() {
    let mut memory = Memory::new();
    memory.add_segment();
    memory.insert(&addr(0, 2), &num(7)).unwrap();
    assert_eq!(memory.get(&addr(0, 0)), Ok(None));
    assert_eq!(memory.get(&addr(0, 9)), Ok(None));
    assert_eq!(memory.get(&addr(3, 0)), Err(MemoryError::UnallocatedSegment(3, 1)));
}
