use vstd::prelude::*;
use crate::bignum::{BigNum, big_eq};
use crate::memory::{Memory, MemoryError, written, cell_at};
use crate::range_check::{RangeCheckBuiltinRunner, RunnerError};
use crate::relocatable::{Relocatable, MaybeRelocatable, ValueModel, shifted};

verus! {

#[derive(Clone, Copy, Debug, PartialEq, Eq, Structural)]
pub enum Register {
    AP,
    FP,
}

#[derive(Clone, Copy, Debug, PartialEq, Eq, Structural)]
pub enum PcUpdate {
    /// To the next instruction.
    Regular,
    /// By a relative offset.
    JumpRel(isize),
    /// To an absolute address.
    Jump(Relocatable),
    /// By a relative offset when the cell at the register plus the second
    /// offset is not zero, else to the next instruction.
    Jnz(isize, Register, isize),
}

#[derive(Clone, Copy, Debug, PartialEq, Eq, Structural)]
pub enum FpUpdate {
    Regular,
    /// To `ap + 2`, as a call does.
    APPlus2,
    /// To a given address, as a return does.
    Dst(Relocatable),
}

/// An instruction as the external decoder hands it over.
#[derive(Clone, Debug)]
pub struct DecodedInstruction {
    /// Number of words the instruction takes.
    pub size: usize,
    pub pc_update: PcUpdate,
    /// Added to `ap`.
    pub ap_update: isize,
    pub fp_update: FpUpdate,
    /// An asserted equality: the cell at the register plus the offset must
    /// hold the value (it is written when empty).
    pub assert_eq: Option<(Register, isize, MaybeRelocatable)>,
}

/// The registers.
#[derive(Clone, Copy, Debug, PartialEq, Eq, Structural)]
pub struct RunContext {
    pub pc: Relocatable,
    pub ap: Relocatable,
    pub fp: Relocatable,
}

/// The registers as they stood before a step.
#[derive(Clone, Copy, Debug, PartialEq, Eq, Structural)]
pub struct TraceEntry {
    pub pc: Relocatable,
    pub ap: Relocatable,
    pub fp: Relocatable,
}

pub open spec fn entry_of(c: RunContext) -> TraceEntry {
    TraceEntry { pc: c.pc, ap: c.ap, fp: c.fp }
}

/// Whether a conditional jump on the cell at `a` is taken; `None` when the
/// cell is unwritten or its segment unallocated.
pub open spec fn jump_taken(m: Seq<Seq<Option<ValueModel>>>, a: Relocatable) -> Option<bool> {
    if a.segment_index < m.len() {
        match cell_at(m, a) {
            None => None,
            Some(ValueModel::Int(v)) => Some(v != 0),
            Some(ValueModel::Addr(_)) => Some(true),
        }
    } else {
        None
    }
}

/// The registers after `i` runs from `c` over memory `m`, if every address
/// stays in range and a conditional jump finds its cell written.
pub open spec fn next_context(c: RunContext, i: DecodedInstruction, m: Seq<Seq<Option<ValueModel>>>) -> Option<RunContext> {
    let pc = match i.pc_update {
        PcUpdate::Regular => shifted(c.pc, i.size as int),
        PcUpdate::JumpRel(d) => shifted(c.pc, d as int),
        PcUpdate::Jump(a) => Some(a),
        PcUpdate::Jnz(d, reg, off) => match target_of(c, reg, off) {
            None => None,
            Some(a) => match jump_taken(m, a) {
                None => None,
                Some(true) => shifted(c.pc, d as int),
                Some(false) => shifted(c.pc, i.size as int),
            },
        },
    };
    let ap = shifted(c.ap, i.ap_update as int);
    let fp = match i.fp_update {
        FpUpdate::Regular => Some(c.fp),
        FpUpdate::APPlus2 => shifted(c.ap, 2),
        FpUpdate::Dst(a) => Some(a),
    };
    if pc is Some && ap is Some && fp is Some {
        Some(RunContext { pc: pc->0, ap: ap->0, fp: fp->0 })
    } else {
        None
    }
}

/// The address that an asserted equality of `i` speaks of.
pub open spec fn target_of(c: RunContext, reg: Register, off: isize) -> Option<Relocatable> {
    match reg {
        Register::AP => shifted(c.ap, off as int),
        Register::FP => shifted(c.fp, off as int),
    }
}

pub open spec fn context_of(e: TraceEntry) -> RunContext {
    RunContext { pc: e.pc, ap: e.ap, fp: e.fp }
}

/// The instruction that stands at `pc`: programs live in segment 0, one
/// decoded instruction per offset.
pub open spec fn fetched(program: Seq<DecodedInstruction>, pc: Relocatable) -> Option<DecodedInstruction> {
    if pc.segment_index == 0 && pc.offset < program.len() {
        Some(program[pc.offset as int])
    } else {
        None
    }
}

/// The registers after the step recorded at `t[i]`: those recorded next, or
/// `end` after the last step.
pub open spec fn context_after(t: Seq<TraceEntry>, i: int, end: RunContext) -> RunContext {
    if i + 1 < t.len() {
        context_of(t[i + 1])
    } else {
        end
    }
}

/// `t` records a run of `program` from `start` to `end`: each entry holds the
/// registers just before its step, and each step moves them as the
/// instruction fetched there says. Memory is write-once, so the cells a step
/// read are the same in `m`, the memory at the end.
pub open spec fn records_run(
    program: Seq<DecodedInstruction>,
    t: Seq<TraceEntry>,
    start: RunContext,
    end: RunContext,
    m: Seq<Seq<Option<ValueModel>>>,
) -> bool {
    &&& t.len() == 0 ==> start == end
    &&& t.len() > 0 ==> t[0] == entry_of(start)
    &&& forall|i: int| 0 <= i < t.len() ==> {
        &&& fetched(program, (#[trigger] t[i]).pc) is Some
        &&& next_context(context_of(t[i]), fetched(program, t[i].pc)->0, m) == Some(context_after(t, i, end))
    }
}

/// Every cell written in `m1` holds the same value in `m2`.
pub open spec fn extends(m1: Seq<Seq<Option<ValueModel>>>, m2: Seq<Seq<Option<ValueModel>>>) -> bool {
    &&& m1.len() <= m2.len()
    &&& forall|a: Relocatable| a.segment_index < m1.len() && (#[trigger] cell_at(m1, a)) is Some
        ==> cell_at(m2, a) == cell_at(m1, a)
}

proof fn lemma_next_context_stable(
    c: RunContext,
    i: DecodedInstruction,
    m1: Seq<Seq<Option<ValueModel>>>,
    m2: Seq<Seq<Option<ValueModel>>>,
)
    requires
        extends(m1, m2),
        next_context(c, i, m1) is Some,
    ensures
        next_context(c, i, m2) == next_context(c, i, m1),
{
    match i.pc_update {
        PcUpdate::Jnz(d, reg, off) => {
            let a = target_of(c, reg, off)->0;
            assert(cell_at(m2, a) == cell_at(m1, a));
        },
        _ => {},
    }
}

#[derive(Clone, Copy, Debug, PartialEq, Eq, Structural)]
pub enum VirtualMachineError {
    /// The step ceiling was reached.
    StepLimitExceeded(usize),
    /// No decoded instruction stands at this `pc`.
    InvalidInstructionEncoding(Relocatable),
    /// An address left the range of offsets.
    OffsetOutOfRange,
    /// A conditional jump reads a cell never written.
    UnknownMemoryCell(Relocatable),
    /// The asserted cell holds another value.
    UnsatisfiedAssertEqual(Relocatable),
    Memory(MemoryError),
    Builtin(RunnerError),
}

pub struct VirtualMachine {
    pub run_context: RunContext,
    pub memory: Memory,
    pub trace: Vec<TraceEntry>,
    pub builtin_runners: Vec<RangeCheckBuiltinRunner>,
    pub current_step: usize,
    pub step_limit: usize,
}

impl VirtualMachine {
    pub open spec fn wf(&self) -> bool {
        forall|k: int| 0 <= k < self.builtin_runners@.len() ==> (#[trigger] self.builtin_runners@[k]).wf()
    }

    /// Whether every eagerly checking runner whose segment holds `addr` accepts `v`.
    pub open spec fn builtins_accept(&self, addr: Relocatable, v: MaybeRelocatable) -> bool {
        forall|k: int|
            0 <= k < self.builtin_runners@.len() && (#[trigger] self.builtin_runners@[k]).included
                && self.builtin_runners@[k].base == addr.segment_index ==> self.builtin_runners@[k].accepts(v@)
    }

    /// The error a builtin gives for a word it rejects at `addr`.
    pub open spec fn rejection(addr: Relocatable, v: MaybeRelocatable) -> VirtualMachineError {
        match v {
            MaybeRelocatable::Int(_) => VirtualMachineError::Builtin(RunnerError::OutOfRangeValue(addr)),
            MaybeRelocatable::RelocatableValue(_) => VirtualMachineError::Builtin(RunnerError::FoundNonInt(addr)),
        }
    }

    /// Why a conditional jump of `instr` cannot read its cell, if it cannot.
    pub open spec fn jump_error(&self, instr: DecodedInstruction) -> Option<VirtualMachineError> {
        let c = self.run_context;
        let m = self.memory@;
        match instr.pc_update {
            PcUpdate::Jnz(d, reg, off) => match target_of(c, reg, off) {
                None => Some(VirtualMachineError::OffsetOutOfRange),
                Some(a) => if a.segment_index >= m.len() {
                    Some(VirtualMachineError::Memory(MemoryError::UnallocatedSegment(a.segment_index, m.len() as usize)))
                } else if cell_at(m, a) is None {
                    Some(VirtualMachineError::UnknownMemoryCell(a))
                } else {
                    None
                },
            },
            _ => None,
        }
    }

    /// Why the asserted equality of `instr` fails, if it does.
    pub open spec fn assert_error(&self, instr: DecodedInstruction) -> Option<VirtualMachineError> {
        let m = self.memory@;
        match instr.assert_eq {
            None => None,
            Some((reg, off, v)) => match target_of(self.run_context, reg, off) {
                None => Some(VirtualMachineError::OffsetOutOfRange),
                Some(a) => if a.segment_index >= m.len() {
                    Some(VirtualMachineError::Memory(MemoryError::UnallocatedSegment(a.segment_index, m.len() as usize)))
                } else {
                    match cell_at(m, a) {
                        Some(w) => if w != v@ {
                            Some(VirtualMachineError::UnsatisfiedAssertEqual(a))
                        } else {
                            None
                        },
                        None => if !self.builtins_accept(a, v) {
                            Some(Self::rejection(a, v))
                        } else {
                            None
                        },
                    }
                },
            },
        }
    }

    /// The error one step of `instr` stops with from this state; `None`
    /// when the step succeeds.
    pub open spec fn step_error(&self, instr: DecodedInstruction) -> Option<VirtualMachineError> {
        if self.current_step >= self.step_limit {
            Some(VirtualMachineError::StepLimitExceeded(self.step_limit))
        } else if next_context(self.run_context, instr, self.memory@) is None {
            match self.jump_error(instr) {
                Some(e) => Some(e),
                None => Some(VirtualMachineError::OffsetOutOfRange),
            }
        } else {
            self.assert_error(instr)
        }
    }

    /// A machine with the given registers and memory, an empty trace, and no builtin.
    pub fn new(run_context: RunContext, memory: Memory, step_limit: usize) -> (r: VirtualMachine)
        ensures
            r.wf(),
            r.run_context == run_context,
            r.memory@ == memory@,
            r.trace@.len() == 0,
            r.builtin_runners@.len() == 0,
            r.current_step == 0,
            r.step_limit == step_limit,
    {
        VirtualMachine { run_context, memory, trace: Vec::new(), builtin_runners: Vec::new(), current_step: 0, step_limit }
    }

    fn check_builtins(&self, addr: &Relocatable, v: &MaybeRelocatable) -> (r: Result<(), RunnerError>)
        requires
            self.wf(),
        ensures
            r is Ok <==> self.builtins_accept(*addr, *v),
            r matches Err(e) ==> VirtualMachineError::Builtin(e) == Self::rejection(*addr, *v),
    {
        let mut k: usize = 0;
        while k < self.builtin_runners.len()
            invariant
                self.wf(),
                k <= self.builtin_runners@.len(),
                forall|q: int|
                    0 <= q < k && (#[trigger] self.builtin_runners@[q]).included
                        && self.builtin_runners@[q].base == addr.segment_index ==> self.builtin_runners@[q].accepts(v@),
            decreases self.builtin_runners@.len() - k,
        {
            let b = &self.builtin_runners[k];
            if b.included && b.base == addr.segment_index {
                match b.validate(addr, v) {
                    Ok(()) => {},
                    Err(e) => {
                        return Err(e);
                    },
                }
            }
            k = k + 1;
        }
        Ok(())
    }

    /// Executes one instruction: checks its asserted equality (writing the
    /// cell when empty, under the builtins' eager checks), records the
    /// registers as they stood, then moves them. On an error nothing changes.
    pub fn step_instruction(&mut self, instr: &DecodedInstruction) -> (r: Result<(), VirtualMachineError>)
        requires
            old(self).wf(),
        ensures
            final(self).wf(),
            final(self).builtin_runners@ == old(self).builtin_runners@,
            final(self).step_limit == old(self).step_limit,
            r is Ok <==> old(self).step_error(*instr) is None,
            r matches Err(e) ==> old(self).step_error(*instr) == Some(e),
            r is Ok ==> {
                &&& next_context(old(self).run_context, *instr, old(self).memory@) == Some(final(self).run_context)
                &&& extends(old(self).memory@, final(self).memory@)
                &&& final(self).trace@ == old(self).trace@.push(entry_of(old(self).run_context))
                &&& final(self).current_step == old(self).current_step + 1
                &&& match instr.assert_eq {
                    None => final(self).memory@ == old(self).memory@,
                    Some((reg, off, v)) => {
                        let a = target_of(old(self).run_context, reg, off)->0;
                        &&& target_of(old(self).run_context, reg, off) is Some
                        &&& final(self).memory@ == written(old(self).memory@, a, v@)
                        &&& (cell_at(old(self).memory@, a) is None ==> old(self).builtins_accept(a, v))
                    },
                }
            },
            r is Err ==> {
                &&& final(self).run_context == old(self).run_context
                &&& final(self).trace@ == old(self).trace@
                &&& final(self).current_step == old(self).current_step
                &&& final(self).memory@ == old(self).memory@
            },
    {
        if self.current_step >= self.step_limit {
            return Err(VirtualMachineError::StepLimitExceeded(self.step_limit));
        }
        let c = self.run_context;
        let pc = match instr.pc_update {
            PcUpdate::Regular => c.pc.add_int_usize(instr.size),
            PcUpdate::JumpRel(d) => c.pc.add_int(d),
            PcUpdate::Jump(a) => Some(a),
            PcUpdate::Jnz(d, reg, off) => {
                let base = match reg {
                    Register::AP => c.ap,
                    Register::FP => c.fp,
                };
                let a = match base.add_int(off) {
                    Some(a) => a,
                    None => {
                        return Err(VirtualMachineError::OffsetOutOfRange);
                    },
                };
                let taken = match self.memory.get(&a) {
                    Ok(Some(MaybeRelocatable::Int(n))) => !big_eq(n, &BigNum::from_u32(0)),
                    Ok(Some(MaybeRelocatable::RelocatableValue(_))) => true,
                    Ok(None) => {
                        return Err(VirtualMachineError::UnknownMemoryCell(a));
                    },
                    Err(e) => {
                        return Err(VirtualMachineError::Memory(e));
                    },
                };
                if taken {
                    c.pc.add_int(d)
                } else {
                    c.pc.add_int_usize(instr.size)
                }
            },
        };
        let ap = c.ap.add_int(instr.ap_update);
        let fp = match instr.fp_update {
            FpUpdate::Regular => Some(c.fp),
            FpUpdate::APPlus2 => c.ap.add_int(2),
            FpUpdate::Dst(a) => Some(a),
        };
        let next = match (pc, ap, fp) {
            (Some(pc), Some(ap), Some(fp)) => RunContext { pc, ap, fp },
            _ => {
                return Err(VirtualMachineError::OffsetOutOfRange);
            },
        };
        match &instr.assert_eq {
            None => {},
            Some((reg, off, v)) => {
                let base = match reg {
                    Register::AP => c.ap,
                    Register::FP => c.fp,
                };
                let a = match base.add_int(*off) {
                    Some(a) => a,
                    None => {
                        return Err(VirtualMachineError::OffsetOutOfRange);
                    },
                };
                let existing = match self.memory.get(&a) {
                    Ok(x) => x.is_some(),
                    Err(e) => {
                        return Err(VirtualMachineError::Memory(e));
                    },
                };
                if !existing {
                    match self.check_builtins(&a, v) {
                        Ok(()) => {},
                        Err(e) => {
                            return Err(VirtualMachineError::Builtin(e));
                        },
                    }
                }
                match self.memory.insert(&a, v) {
                    Ok(()) => {},
                    Err(MemoryError::InconsistentMemory(x)) => {
                        return Err(VirtualMachineError::UnsatisfiedAssertEqual(x));
                    },
                    Err(e) => {
                        return Err(VirtualMachineError::Memory(e));
                    },
                }
            },
        }
        self.trace.push(TraceEntry { pc: c.pc, ap: c.ap, fp: c.fp });
        self.run_context = next;
        self.current_step = self.current_step + 1;
        Ok(())
    }

    /// Checks every builtin's segment once the run has halted.
    pub fn end_run(&self) -> (r: Result<(), VirtualMachineError>)
        requires
            self.wf(),
        ensures
            r is Ok <==> forall|k: int|
                0 <= k < self.builtin_runners@.len() ==> (#[trigger] self.builtin_runners@[k]).segment_accepted(self.memory@),
            r matches Err(e) ==> e is Builtin,
    {
        let mut k: usize = 0;
        while k < self.builtin_runners.len()
            invariant
                self.wf(),
                k <= self.builtin_runners@.len(),
                forall|q: int| 0 <= q < k ==> (#[trigger] self.builtin_runners@[q]).segment_accepted(self.memory@),
            decreases self.builtin_runners@.len() - k,
        {
            match self.builtin_runners[k].final_check(&self.memory) {
                Ok(()) => {},
                Err(e) => {
                    return Err(VirtualMachineError::Builtin(e));
                },
            }
            k = k + 1;
        }
        Ok(())
    }

    /// Runs `program` until `pc` reaches `final_pc`. Whether it halts or
    /// fails, the entries added to the trace record the steps that were
    /// executed, one per step, in order.
    pub fn run_until_pc(&mut self, program: &Vec<DecodedInstruction>, final_pc: Relocatable) -> (r: Result<(), VirtualMachineError>)
        requires
            old(self).wf(),
        ensures
            final(self).wf(),
            final(self).trace@.len() >= old(self).trace@.len(),
            final(self).trace@.take(old(self).trace@.len() as int) == old(self).trace@,
            final(self).trace@.len() - old(self).trace@.len() == final(self).current_step - old(self).current_step,
            records_run(
                program@,
                final(self).trace@.skip(old(self).trace@.len() as int),
                old(self).run_context,
                final(self).run_context,
                final(self).memory@,
            ),
            r is Ok ==> final(self).run_context.pc == final_pc,
            r matches Err(e) ==> {
                let pc = final(self).run_context.pc;
                &&& pc != final_pc
                &&& match fetched(program@, pc) {
                    None => e == VirtualMachineError::InvalidInstructionEncoding(pc),
                    Some(i) => final(self).step_error(i) == Some(e),
                }
            },
    {
        let ghost t0 = self.trace@;
        let ghost c0 = self.run_context;
        let ghost s0 = self.current_step;
        proof {
            assert(self.trace@.skip(t0.len() as int) =~= Seq::<TraceEntry>::empty());
        }
        while self.run_context.pc != final_pc
            invariant
                t0 == old(self).trace@,
                c0 == old(self).run_context,
                s0 == old(self).current_step,
                self.wf(),
                self.trace@.len() >= t0.len(),
                self.trace@.take(t0.len() as int) == t0,
                self.trace@.len() - t0.len() == self.current_step - s0,
                records_run(program@, self.trace@.skip(t0.len() as int), c0, self.run_context, self.memory@),
            decreases self.step_limit - self.current_step,
        {
            let pc = self.run_context.pc;
            if pc.segment_index != 0 || pc.offset >= program.len() {
                return Err(VirtualMachineError::InvalidInstructionEncoding(pc));
            }
            let ghost told = self.trace@.skip(t0.len() as int);
            let ghost cold = self.run_context;
            let ghost lim = self.step_limit;
            let ghost mold = self.memory@;
            match self.step_instruction(&program[pc.offset]) {
                Ok(()) => {},
                Err(e) => {
                    return Err(e);
                },
            }
            proof {
                let t = self.trace@.skip(t0.len() as int);
                assert(t =~= told.push(entry_of(cold)));
                assert(self.trace@.take(t0.len() as int) =~= t0);
                assert(context_of(entry_of(cold)) == cold);
                assert forall|i: int| 0 <= i < t.len() implies {
                    &&& fetched(program@, (#[trigger] t[i]).pc) is Some
                    &&& next_context(context_of(t[i]), fetched(program@, t[i].pc)->0, self.memory@) == Some(context_after(t, i, self.run_context))
                } by {
                    if i + 1 < t.len() {
                        assert(context_after(t, i, self.run_context) == context_after(told, i, cold));
                        lemma_next_context_stable(context_of(t[i]), fetched(program@, t[i].pc)->0, mold, self.memory@);
                    } else {
                        lemma_next_context_stable(cold, program@[pc.offset as int], mold, self.memory@);
                    }
                }
                assert(self.step_limit == lim);
            }
        }
        Ok(())
    }
}

} // verus!
