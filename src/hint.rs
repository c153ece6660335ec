use vstd::prelude::*;
use crate::bignum::BigNum;
use crate::memory::{Memory, cell_at, cell_view};
use crate::relocatable::{Relocatable, MaybeRelocatable, ValueModel, shifted};
use crate::vm::{Register, RunContext};

verus! {

/// Where a reference was compiled, for tracking `ap`.
#[derive(Clone, Copy, Debug, PartialEq, Eq, Structural)]
pub struct ApTracking {
    pub group: usize,
    pub offset: usize,
}

/// A named operand of a hint: a register plus offsets, with dereference
/// flags, or an immediate value.
#[derive(Clone, Debug, PartialEq, Eq)]
pub struct HintReference {
    pub register: Register,
    pub offset1: i32,
    pub offset2: i32,
    /// Whether the cell at `register + offset1` holds the base address.
    pub inner_dereference: bool,
    pub ap_tracking_data: Option<ApTracking>,
    pub immediate: Option<BigNum>,
    /// Whether the reference stands for the cell's value rather than its address.
    pub dereference: bool,
}

impl HintReference {
    /// A dereferenced reference to `fp + offset1`.
    pub fn new_simple(offset1: i32) -> (r: HintReference)
        ensures
            r.register == Register::FP,
            r.offset1 == offset1,
            r.offset2 == 0,
            !r.inner_dereference,
            r.ap_tracking_data is None,
            r.immediate is None,
            r.dereference,
    {
        HintReference {
            register: Register::FP,
            offset1,
            offset2: 0,
            inner_dereference: false,
            ap_tracking_data: None,
            immediate: None,
            dereference: true,
        }
    }
}

/// The address a reference names against the registers `c` and memory `m`.
pub open spec fn reference_address(r: HintReference, c: RunContext, m: Seq<Seq<Option<ValueModel>>>) -> Option<Relocatable> {
    let base = match r.register {
        Register::AP => c.ap,
        Register::FP => c.fp,
    };
    match shifted(base, r.offset1 as int) {
        None => None,
        Some(a) => if !r.inner_dereference {
            shifted(a, r.offset2 as int)
        } else if a.segment_index < m.len() {
            match cell_at(m, a) {
                Some(ValueModel::Addr(p)) => shifted(p, r.offset2 as int),
                _ => None,
            }
        } else {
            None
        },
    }
}

/// The value a reference stands for: its immediate, the cell at its address,
/// or the address itself.
pub open spec fn reference_value(r: HintReference, c: RunContext, m: Seq<Seq<Option<ValueModel>>>) -> Option<ValueModel> {
    match r.immediate {
        Some(v) => Some(ValueModel::Int(v@)),
        None => match reference_address(r, c, m) {
            None => None,
            Some(a) => if !r.dereference {
                Some(ValueModel::Addr(a))
            } else if a.segment_index < m.len() {
                cell_at(m, a)
            } else {
                None
            },
        },
    }
}

/// Resolves the address of a reference against the current registers.
pub fn compute_addr_from_reference(r: &HintReference, c: &RunContext, memory: &Memory) -> (res: Option<Relocatable>)
    ensures
        res == reference_address(*r, *c, memory@),
{
    let base = match r.register {
        Register::AP => c.ap,
        Register::FP => c.fp,
    };
    let a = match base.add_int(r.offset1 as isize) {
        Some(a) => a,
        None => {
            return None;
        },
    };
    if !r.inner_dereference {
        return a.add_int(r.offset2 as isize);
    }
    match memory.get(&a) {
        Ok(Some(MaybeRelocatable::RelocatableValue(p))) => p.add_int(r.offset2 as isize),
        _ => None,
    }
}

/// Resolves the value of a reference against the current registers.
pub fn get_value_from_reference(r: &HintReference, c: &RunContext, memory: &Memory) -> (res: Option<MaybeRelocatable>)
    ensures
        res matches Some(v) ==> reference_value(*r, *c, memory@) == Some(v@),
        res is None ==> reference_value(*r, *c, memory@) is None,
{
    match &r.immediate {
        Some(v) => {
            return Some(MaybeRelocatable::Int(v.duplicate()));
        },
        None => {},
    }
    let a = match compute_addr_from_reference(r, c, memory) {
        Some(a) => a,
        None => {
            return None;
        },
    };
    if !r.dereference {
        return Some(MaybeRelocatable::RelocatableValue(a));
    }
    match memory.get(&a) {
        Ok(Some(v)) => Some(v.duplicate()),
        _ => None,
    }
}

/// The names of a hint's references, each with the value it stands for
/// against the current registers and memory (`None` where it cannot be
/// resolved).
pub fn resolve_references(refs: &Vec<(String, HintReference)>, c: &RunContext, memory: &Memory) -> (r: Vec<(String, Option<MaybeRelocatable>)>)
    ensures
        r@.len() == refs@.len(),
        forall|i: int| 0 <= i < r@.len() ==> (#[trigger] r@[i]).0@ == refs@[i].0@
            && cell_view(r@[i].1) == reference_value(refs@[i].1, *c, memory@),
{
    let mut r: Vec<(String, Option<MaybeRelocatable>)> = Vec::new();
    let mut i: usize = 0;
    while i < refs.len()
        invariant
            i <= refs@.len(),
            r@.len() == i,
            forall|k: int| 0 <= k < i ==> (#[trigger] r@[k]).0@ == refs@[k].0@
                && cell_view(r@[k].1) == reference_value(refs@[k].1, *c, memory@),
        decreases refs@.len() - i,
    {
        let v = get_value_from_reference(&refs[i].1, c, memory);
        r.push((refs[i].0.clone(), v));
        i = i + 1;
    }
    r
}

} // verus!
