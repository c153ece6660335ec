use cairo_rs::bignum::BigNum;
use cairo_rs::memory::{Memory, MemoryError};
use cairo_rs::range_check::{RangeCheckBuiltinRunner, RunnerError};
use cairo_rs::relocatable::{MaybeRelocatable, Relocatable};
use cairo_rs::relocation::relocate_address;
use cairo_rs::scopes::{ExecScopeError, ExecutionScopes};
use cairo_rs::vm::{
    DecodedInstruction, FpUpdate, PcUpdate, Register, RunContext, TraceEntry, VirtualMachine,
    VirtualMachineError,
};
use num_bigint::{BigInt, Sign};

fn addr(s: usize, o: usize) -> Relocatable {
    Relocatable { segment_index: s, offset: o }
}

fn num(n: u32) -> MaybeRelocatable {
    MaybeRelocatable::Int(BigNum::from_u32(n))
}

fn rel(s: usize, o: usize) -> MaybeRelocatable {
    MaybeRelocatable::RelocatableValue(addr(s, o))
}

fn big_of(b: &BigInt) -> BigNum {
    let (sign, digits) = b.to_u32_digits();
    BigNum { negative: sign == Sign::Minus, digits }
}

fn int_of(b: &BigNum) -> BigInt {
    BigInt::new(if b.negative { Sign::Minus } else { Sign::Plus }, b.digits.clone())
}

fn flat(v: &[Option<BigNum>]) -> Vec<Option<i64>> {
    v.iter()
        .map(|c| c.as_ref().map(|n| i64::try_from(int_of(n)).unwrap()))
        .collect()
}

#[test]
fn relocate_lays_segments_end_to_end() {
    let mut memory = Memory::new();
    memory.add_segment();
    memory.add_segment();
    memory.add_segment();
    memory.insert(&addr(0, 0), &num(10)).unwrap();
    memory.insert(&addr(0, 1), &rel(1, 1)).unwrap();
    memory.insert(&addr(1, 0), &rel(2, 0)).unwrap();
    memory.insert(&addr(1, 2), &num(3)).unwrap();
    memory.insert(&addr(2, 0), &rel(0, 1)).unwrap();
    assert_eq!(memory.segment_bases(), vec![0, 2, 5]);
    let out = memory.relocate().unwrap();
    assert_eq!(flat(&out), vec![Some(10), Some(3), Some(5), None, Some(3), Some(1)]);
}

#[test]
fn relocate_nested_matches_standalone() {
    let mut memory = Memory::new();
    memory.add_segment();
    memory.add_segment();
    memory.insert(&addr(0, 4), &num(1)).unwrap();
    memory.insert(&addr(1, 0), &rel(1, 7)).unwrap();
    let bases = memory.segment_bases();
    let alone = relocate_address(&bases, &addr(1, 7)).unwrap();
    let out = memory.relocate().unwrap();
    assert_eq!(int_of(out[5].as_ref().unwrap()), int_of(&alone));
    assert_eq!(int_of(&alone), BigInt::from(12));
    // same contents, same result
    assert_eq!(flat(&memory.relocate().unwrap()), flat(&out));
}

#[test]
fn relocate_unknown_segment_fails() {
    let mut memory = Memory::new();
    memory.add_segment();
    memory.insert(&addr(0, 0), &rel(4, 0)).unwrap();
    assert_eq!(memory.relocate(), Err(MemoryError::UnknownSegment(4)));
    assert_eq!(
        relocate_address(&vec![0], &addr(1, 0)),
        Err(MemoryError::UnknownSegment(1))
    );
}

#[test]
fn range_check_bound_is_power() {
    let rc = RangeCheckBuiltinRunner::new(true, BigNum::from_u32(8), 8);
    assert_eq!(int_of(&rc.bound), BigInt::from(1u64 << 24));
}

#[test]
fn range_check_accepts_and_rejects() {
    let rc = RangeCheckBuiltinRunner::new(true, BigNum::from_u32(8), 8);
    let a = addr(0, 0);
    assert_eq!(rc.validate(&a, &num(0)), Ok(()));
    assert_eq!(rc.validate(&a, &num((1 << 24) - 1)), Ok(()));
    assert_eq!(rc.validate(&a, &num(1 << 24)), Err(RunnerError::OutOfRangeValue(a)));
    let minus_one = big_of(&BigInt::from(-1));
    assert_eq!(
        rc.validate(&a, &MaybeRelocatable::Int(minus_one)),
        Err(RunnerError::OutOfRangeValue(a))
    );
    assert_eq!(rc.validate(&a, &rel(0, 0)), Err(RunnerError::FoundNonInt(a)));
}

#[test]
fn range_check_large_bound() {
    let two_pow_16 = BigNum::from_u32(1 << 16);
    let rc = RangeCheckBuiltinRunner::new(false, two_pow_16, 8);
    let top = big_of(&((BigInt::from(1) << 128) - 1));
    let over = big_of(&(BigInt::from(1) << 128));
    let a = addr(0, 0);
    assert_eq!(rc.validate(&a, &MaybeRelocatable::Int(top)), Ok(()));
    assert_eq!(
        rc.validate(&a, &MaybeRelocatable::Int(over)),
        Err(RunnerError::OutOfRangeValue(a))
    );
}

#[test]
fn range_check_final_check() {
    let mut memory = Memory::new();
    memory.add_segment();
    let mut rc = RangeCheckBuiltinRunner::new(false, BigNum::from_u32(4), 2);
    assert_eq!(rc.final_check(&Memory::new()), Err(RunnerError::MissingSegment(0)));
    assert_eq!(rc.initialize_segments(&mut memory), 1);
    memory.insert(&addr(1, 0), &num(15)).unwrap();
    memory.insert(&addr(1, 3), &num(2)).unwrap();
    assert_eq!(rc.final_check(&memory), Ok(()));
    memory.insert(&addr(1, 5), &num(16)).unwrap();
    assert_eq!(rc.final_check(&memory), Err(RunnerError::OutOfRangeValue(addr(1, 5))));
}

#[test]
fn scope_variable_gone_after_exit() {
    let mut scopes = ExecutionScopes::new();
    let x = String::from("x");
    scopes.assign_or_update_variable(&x, &num(1));
    scopes.enter_scope();
    assert_eq!(scopes.get(&x), None);
    scopes.assign_or_update_variable(&x, &num(2));
    scopes.assign_or_update_variable(&x, &num(3));
    assert_eq!(scopes.get(&x), Some(&num(3)));
    assert_eq!(scopes.exit_scope(), Ok(()));
    assert_eq!(scopes.get(&x), Some(&num(1)));
    scopes.enter_scope();
    assert_eq!(scopes.get(&x), None);
}

#[test]
fn scope_main_cannot_exit() {
    let mut scopes = ExecutionScopes::new();
    assert_eq!(scopes.exit_scope(), Err(ExecScopeError::ExitMainScopeError));
    scopes.enter_scope();
    assert_eq!(scopes.exit_scope(), Ok(()));
    assert_eq!(scopes.exit_scope(), Err(ExecScopeError::ExitMainScopeError));
}

fn ctx(pc: usize, ap: usize, fp: usize) -> RunContext {
    RunContext { pc: addr(0, pc), ap: addr(1, ap), fp: addr(1, fp) }
}

fn plain(size: usize, ap_update: isize) -> DecodedInstruction {
    DecodedInstruction {
        size,
        pc_update: PcUpdate::Regular,
        ap_update,
        fp_update: FpUpdate::Regular,
        assert_eq: None,
    }
}

fn vm_with_memory(c: RunContext, limit: usize) -> VirtualMachine {
    let mut memory = Memory::new();
    memory.add_segment();
    memory.add_segment();
    VirtualMachine::new(c, memory, limit)
}

#[test]
fn trace_records_each_step() {
    let mut vm = vm_with_memory(ctx(0, 2, 2), 100);
    let mut write = plain(2, 1);
    write.assert_eq = Some((Register::AP, 0, num(7)));
    let program = vec![write.clone(), plain(1, 0), plain(1, 2), plain(1, 0)];
    assert_eq!(vm.run_until_pc(&program, addr(0, 4)), Ok(()));
    assert_eq!(vm.trace.len(), 3);
    assert_eq!(vm.current_step, 3);
    let e = |pc, ap, fp| TraceEntry { pc: addr(0, pc), ap: addr(1, ap), fp: addr(1, fp) };
    assert_eq!(vm.trace, vec![e(0, 2, 2), e(2, 3, 2), e(3, 5, 2)]);
    assert_eq!(vm.run_context, ctx(4, 5, 2));
    assert_eq!(vm.memory.get(&addr(1, 2)), Ok(Some(&num(7))));
}

#[test]
fn step_limit_stops_run() {
    let mut vm = vm_with_memory(ctx(0, 0, 0), 2);
    let jump_back = DecodedInstruction {
        size: 1,
        pc_update: PcUpdate::JumpRel(0),
        ap_update: 0,
        fp_update: FpUpdate::APPlus2,
        assert_eq: None,
    };
    let program = vec![jump_back];
    assert_eq!(
        vm.run_until_pc(&program, addr(0, 1)),
        Err(VirtualMachineError::StepLimitExceeded(2))
    );
    assert_eq!(vm.trace.len(), 2);
    assert_eq!(vm.run_context, ctx(0, 0, 2));
}

#[test]
fn unsatisfied_assert_eq_keeps_trace() {
    let mut vm = vm_with_memory(ctx(0, 0, 0), 10);
    let mut w1 = plain(1, 0);
    w1.assert_eq = Some((Register::FP, 0, num(1)));
    let mut w2 = plain(1, 0);
    w2.assert_eq = Some((Register::FP, 0, num(2)));
    let program = vec![w1, w2];
    assert_eq!(
        vm.run_until_pc(&program, addr(0, 2)),
        Err(VirtualMachineError::UnsatisfiedAssertEqual(addr(1, 0)))
    );
    assert_eq!(vm.trace.len(), 1);
    assert_eq!(vm.run_context, ctx(1, 0, 0));
}

#[test]
fn offset_underflow_and_missing_instruction() {
    let mut vm = vm_with_memory(ctx(0, 0, 0), 10);
    let program = vec![plain(1, -1)];
    assert_eq!(
        vm.run_until_pc(&program, addr(0, 5)),
        Err(VirtualMachineError::OffsetOutOfRange)
    );
    let mut vm = vm_with_memory(ctx(0, 1, 0), 10);
    assert_eq!(
        vm.run_until_pc(&program, addr(0, 5)),
        Err(VirtualMachineError::InvalidInstructionEncoding(addr(0, 1)))
    );
    assert_eq!(vm.trace.len(), 1);
}

#[test]
fn builtin_rejects_eager_write() {
    let mut vm = vm_with_memory(ctx(0, 0, 0), 10);
    let rc = RangeCheckBuiltinRunner::new(true, BigNum::from_u32(2), 2);
    vm.builtin_runners.push(rc);
    vm.builtin_runners[0].base = 1;
    let mut w = plain(1, 1);
    w.assert_eq = Some((Register::AP, 0, num(3)));
    let mut bad = plain(1, 1);
    bad.assert_eq = Some((Register::AP, 0, num(4)));
    let program = vec![w, bad];
    assert_eq!(
        vm.run_until_pc(&program, addr(0, 2)),
        Err(VirtualMachineError::Builtin(RunnerError::OutOfRangeValue(addr(1, 1))))
    );
    assert_eq!(vm.memory.get(&addr(1, 1)), Ok(None));
}

#[test]
fn range_check_usage_min_max() {
    let mut memory = Memory::new();
    let mut rc = RangeCheckBuiltinRunner::new(true, BigNum::from_u32(4), 2);
    assert!(rc.get_range_check_usage(&memory).is_none());
    rc.initialize_segments(&mut memory);
    assert!(rc.get_range_check_usage(&memory).is_none());
    memory.insert(&addr(0, 0), &num(14)).unwrap();
    memory.insert(&addr(0, 2), &num(9)).unwrap();
    memory.insert(&addr(0, 3), &num(16)).unwrap();
    let (lo, hi) = rc.get_range_check_usage(&memory).unwrap();
    // 14 = [2, 3], 9 = [1, 2]; 16 is out of range and not counted
    assert_eq!(int_of(&lo), BigInt::from(1));
    assert_eq!(int_of(&hi), BigInt::from(3));
}

#[test]
fn end_run_runs_final_checks() {
    let mut vm = vm_with_memory(ctx(0, 0, 0), 10);
    let mut rc = RangeCheckBuiltinRunner::new(false, BigNum::from_u32(2), 2);
    rc.base = 1;
    vm.builtin_runners.push(rc);
    let mut w = plain(1, 1);
    w.assert_eq = Some((Register::AP, 0, num(9)));
    let program = vec![w];
    assert_eq!(vm.run_until_pc(&program, addr(0, 1)), Ok(()));
    assert_eq!(
        vm.end_run(),
        Err(VirtualMachineError::Builtin(RunnerError::OutOfRangeValue(addr(1, 0))))
    );
    let mut ok_vm = vm_with_memory(ctx(0, 0, 0), 10);
    let mut rc = RangeCheckBuiltinRunner::new(false, BigNum::from_u32(2), 2);
    rc.base = 1;
    ok_vm.builtin_runners.push(rc);
    assert_eq!(ok_vm.end_run(), Ok(()));
}

#[test]
fn conditional_jump_loop_counts_down() {
    // jnz on [ap - 1]: taken when the cell is 1, not taken when it is 0
    let mut vm = vm_with_memory(ctx(0, 3, 0), 20);
    vm.memory.insert(&addr(1, 2), &num(1)).unwrap();
    let jnz = DecodedInstruction {
        size: 1,
        pc_update: PcUpdate::Jnz(2, Register::AP, -1),
        ap_update: 0,
        fp_update: FpUpdate::Regular,
        assert_eq: None,
    };
    let program = vec![jnz.clone(), plain(1, 0), plain(1, 0)];
    assert_eq!(vm.run_until_pc(&program, addr(0, 3)), Ok(()));
    let e = |pc, ap, fp| TraceEntry { pc: addr(0, pc), ap: addr(1, ap), fp: addr(1, fp) };
    assert_eq!(vm.trace, vec![e(0, 3, 0), e(2, 3, 0)]);

    let mut vm = vm_with_memory(ctx(0, 3, 0), 20);
    vm.memory.insert(&addr(1, 2), &num(0)).unwrap();
    assert_eq!(vm.run_until_pc(&program, addr(0, 3)), Ok(()));
    assert_eq!(vm.trace, vec![e(0, 3, 0), e(1, 3, 0), e(2, 3, 0)]);
}

#[test]
fn conditional_jump_on_unwritten_cell_fails() {
    let mut vm = vm_with_memory(ctx(0, 3, 0), 20);
    let jnz = DecodedInstruction {
        size: 1,
        pc_update: PcUpdate::Jnz(2, Register::AP, -1),
        ap_update: 0,
        fp_update: FpUpdate::Regular,
        assert_eq: None,
    };
    let program = vec![jnz];
    assert_eq!(
        vm.run_until_pc(&program, addr(0, 3)),
        Err(VirtualMachineError::UnknownMemoryCell(addr(1, 2)))
    );
    assert_eq!(vm.trace.len(), 0);
}

#[test]
fn final_check_reports_validate_error() {
    let mut memory = Memory::new();
    let mut rc = RangeCheckBuiltinRunner::new(false, BigNum::from_u32(4), 2);
    rc.initialize_segments(&mut memory);
    memory.insert(&addr(0, 0), &num(3)).unwrap();
    memory.insert(&addr(0, 1), &rel(0, 0)).unwrap();
    memory.insert(&addr(0, 2), &num(99)).unwrap();
    assert_eq!(rc.final_check(&memory), Err(RunnerError::FoundNonInt(addr(0, 1))));
}

#[test]
fn step_assert_eq_on_matching_cell_succeeds() {
    let mut vm = vm_with_memory(ctx(0, 0, 0), 10);
    vm.memory.insert(&addr(1, 0), &num(5)).unwrap();
    let mut w = plain(1, 0);
    w.assert_eq = Some((Register::AP, 0, num(5)));
    assert_eq!(vm.step_instruction(&w), Ok(()));
    assert_eq!(vm.trace.len(), 1);
}

#[test]
fn step_assert_eq_unallocated_segment() {
    let mut vm = VirtualMachine::new(ctx(0, 0, 0), Memory::new(), 10);
    let mut w = plain(1, 0);
    w.assert_eq = Some((Register::FP, 0, num(5)));
    assert_eq!(
        vm.step_instruction(&w),
        Err(VirtualMachineError::Memory(MemoryError::UnallocatedSegment(1, 0)))
    );
    assert_eq!(vm.trace.len(), 0);
}

#[test]
fn step_builtin_rejects_address() {
    let mut vm = vm_with_memory(ctx(0, 0, 0), 10);
    let mut rc = RangeCheckBuiltinRunner::new(true, BigNum::from_u32(2), 2);
    rc.base = 1;
    vm.builtin_runners.push(rc);
    let mut w = plain(1, 0);
    w.assert_eq = Some((Register::AP, 0, rel(0, 0)));
    assert_eq!(
        vm.step_instruction(&w),
        Err(VirtualMachineError::Builtin(RunnerError::FoundNonInt(addr(1, 0))))
    );
}

#[test]
fn accepted_value_is_own_field_element() {
    let prime = big_of(
        &BigInt::parse_bytes(
            b"3618502788666131213697322783095070105623107215331596699973092056135872020481",
            10,
        )
        .unwrap(),
    );
    let rc = RangeCheckBuiltinRunner::new(true, BigNum::from_u32(8), 8);
    let v = (1u32 << 24) - 1;
    assert_eq!(rc.validate(&addr(0, 0), &num(v)), Ok(()));
    let r = cairo_rs::utils::to_field_element(BigNum::from_u32(v), prime);
    assert_eq!(int_of(&r), BigInt::from(v));
}
