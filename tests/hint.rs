use cairo_rs::bignum::BigNum;
use cairo_rs::hint::{compute_addr_from_reference, get_value_from_reference, HintReference};
use cairo_rs::memory::Memory;
use cairo_rs::relocatable::{MathError, MaybeRelocatable, Relocatable};
use cairo_rs::vm::{Register, RunContext};
use num_bigint::{BigInt, Sign};
use std::collections::HashMap;

fn addr(s: usize, o: usize) -> Relocatable {
    Relocatable { segment_index: s, offset: o }
}

fn num(n: u32) -> MaybeRelocatable {
    MaybeRelocatable::Int(BigNum::from_u32(n))
}

fn int_of(b: &BigNum) -> BigInt {
    BigInt::new(if b.negative { Sign::Minus } else { Sign::Plus }, b.digits.clone())
}

fn scalar(v: &MaybeRelocatable) -> BigInt {
    match v {
        MaybeRelocatable::Int(n) => int_of(n),
        MaybeRelocatable::RelocatableValue(_) => panic!("not a scalar"),
    }
}

/// References numbered in order, each a simple one at the given offset.
fn not_continuous_references(offsets: &[i32]) -> HashMap<usize, HintReference> {
    let mut references = HashMap::new();
    for (i, off) in offsets.iter().enumerate() {
        references.insert(i, HintReference::new_simple(*off));
    }
    references
}

#[test]
fn check_not_continuous_references_macro_test() {
    let references = HashMap::from([
        (
            0,
            HintReference {
                register: Register::FP,
                offset1: -10,
                offset2: 0,
                inner_dereference: false,
                ap_tracking_data: None,
                immediate: None,
                dereference: true,
            },
        ),
        (
            1,
            HintReference {
                register: Register::FP,
                offset1: -23,
                offset2: 0,
                inner_dereference: false,
                ap_tracking_data: None,
                immediate: None,
                dereference: true,
            },
        ),
    ]);
    assert_eq!(references, not_continuous_references(&[-10, -23]));
}

fn setup() -> (RunContext, Memory) {
    let mut memory = Memory::new();
    memory.add_segment();
    memory.add_segment();
    memory.insert(&addr(1, 3), &num(42)).unwrap();
    memory.insert(&addr(1, 4), &MaybeRelocatable::RelocatableValue(addr(1, 1))).unwrap();
    let c = RunContext { pc: addr(0, 0), ap: addr(1, 6), fp: addr(1, 5) };
    (c, memory)
}

#[test]
fn reference_value_of_fp_cell() {
    let (c, memory) = setup();
    let r = HintReference::new_simple(-2);
    assert_eq!(compute_addr_from_reference(&r, &c, &memory), Some(addr(1, 3)));
    assert_eq!(get_value_from_reference(&r, &c, &memory), Some(num(42)));
}

#[test]
fn reference_address_and_inner_dereference() {
    let (c, memory) = setup();
    let mut r = HintReference::new_simple(-2);
    r.register = Register::AP;
    r.dereference = false;
    assert_eq!(
        get_value_from_reference(&r, &c, &memory),
        Some(MaybeRelocatable::RelocatableValue(addr(1, 4)))
    );
    let mut inner = HintReference::new_simple(-1);
    inner.inner_dereference = true;
    inner.offset2 = 2;
    assert_eq!(compute_addr_from_reference(&inner, &c, &memory), Some(addr(1, 3)));
    assert_eq!(get_value_from_reference(&inner, &c, &memory), Some(num(42)));
}

#[test]
fn reference_immediate_and_failures() {
    let (c, memory) = setup();
    let mut r = HintReference::new_simple(-100);
    assert_eq!(compute_addr_from_reference(&r, &c, &memory), None);
    assert_eq!(get_value_from_reference(&r, &c, &memory), None);
    r.immediate = Some(BigNum::from_u32(9));
    assert_eq!(get_value_from_reference(&r, &c, &memory), Some(num(9)));
    // the cell at fp + 1 is empty
    let empty = HintReference::new_simple(1);
    assert_eq!(get_value_from_reference(&empty, &c, &memory), None);
}

#[test]
fn value_arithmetic_scalars() {
    let p = BigNum::from_u32(7);
    assert_eq!(scalar(&num(5).add(&num(4), &p).unwrap()), BigInt::from(2));
    assert_eq!(scalar(&num(2).sub(&num(5), &p).unwrap()), BigInt::from(4));
    assert_eq!(scalar(&num(3).mul(&num(5), &p).unwrap()), BigInt::from(1));
}

#[test]
fn value_arithmetic_addresses() {
    let p = BigNum::from_u32(7);
    let a = MaybeRelocatable::RelocatableValue(addr(2, 5));
    assert_eq!(a.add(&num(3), &p), Ok(MaybeRelocatable::RelocatableValue(addr(2, 8))));
    assert_eq!(num(3).add(&a, &p), Ok(MaybeRelocatable::RelocatableValue(addr(2, 8))));
    assert_eq!(a.sub(&num(5), &p), Ok(MaybeRelocatable::RelocatableValue(addr(2, 0))));
    assert_eq!(a.sub(&num(6), &p), Err(MathError::OffsetNotRepresentable(addr(2, 5))));
    let b = MaybeRelocatable::RelocatableValue(addr(2, 9));
    assert_eq!(scalar(&a.sub(&b, &p).unwrap()), BigInt::from(-4));
    let other = MaybeRelocatable::RelocatableValue(addr(3, 0));
    assert_eq!(
        a.sub(&other, &p),
        Err(MathError::CrossSegmentArithmetic(addr(2, 5), addr(3, 0)))
    );
    assert_eq!(a.add(&b, &p), Err(MathError::RelocatableAdd));
    assert_eq!(a.mul(&num(2), &p), Err(MathError::RelocatableMul));
    assert_eq!(num(1).sub(&a, &p), Err(MathError::SubRelocatableFromInt));
}

#[test]
fn value_division_by_inverse() {
    let p = BigNum::from_u32(7);
    // 3 / 5 = 2 since 2 * 5 = 10 = 3 (mod 7)
    assert_eq!(scalar(&num(3).div(&num(5), &p).unwrap()), BigInt::from(2));
    assert_eq!(scalar(&num(6).div(&num(1), &p).unwrap()), BigInt::from(6));
    assert_eq!(num(3).div(&num(14), &p), Err(MathError::DividedByZero));
    assert_eq!(num(3).div(&num(0), &p), Err(MathError::DividedByZero));
    let a = MaybeRelocatable::RelocatableValue(addr(0, 0));
    assert_eq!(a.div(&num(1), &p), Err(MathError::RelocatableDiv));
}

#[test]
fn resolve_named_references() {
    let (c, memory) = setup();
    let refs = vec![
        (String::from("x"), HintReference::new_simple(-2)),
        (String::from("missing"), HintReference::new_simple(-100)),
    ];
    let resolved = cairo_rs::hint::resolve_references(&refs, &c, &memory);
    assert_eq!(resolved.len(), 2);
    assert_eq!(resolved[0], (String::from("x"), Some(num(42))));
    assert_eq!(resolved[1], (String::from("missing"), None));
}
