use vstd::prelude::*;
use crate::bignum::{BigNum, big_eq, big_add, big_sub, big_mul, big_from_usize, big_to_usize, big_modinv, mod_floor};

verus! {

/// An address before relocation: a segment and an offset in it.
#[derive(Clone, Copy, Debug, PartialEq, Eq, Structural)]
pub struct Relocatable {
    pub segment_index: usize,
    pub offset: usize,
}

/// `r` moved by `d` within its segment, if the offset stays in `usize`.
pub open spec fn shifted(r: Relocatable, d: int) -> Option<Relocatable> {
    if 0 <= r.offset + d <= usize::MAX {
        Some(Relocatable { segment_index: r.segment_index, offset: (r.offset + d) as usize })
    } else {
        None
    }
}

impl Relocatable {
    /// The address `d` cells further on in the same segment.
    pub fn add_int_usize(&self, d: usize) -> (r: Option<Relocatable>)
        ensures
            r == shifted(*self, d as int),
    {
        if self.offset <= usize::MAX - d {
            Some(Relocatable { segment_index: self.segment_index, offset: self.offset + d })
        } else {
            None
        }
    }

    /// The address `off` cells further on (or back) in the same segment.
    pub fn add_int(&self, off: isize) -> (r: Option<Relocatable>)
        ensures
            r == shifted(*self, off as int),
    {
        if off >= 0 {
            let d: usize = off as usize;
            if self.offset <= usize::MAX - d {
                Some(Relocatable { segment_index: self.segment_index, offset: self.offset + d })
            } else {
                None
            }
        } else {
            let d: usize = if off == isize::MIN { (isize::MAX as usize) + 1 } else { (-off) as usize };
            if self.offset >= d {
                Some(Relocatable { segment_index: self.segment_index, offset: self.offset - d })
            } else {
                None
            }
        }
    }

    /// The address moved by the integer `n`, if the offset stays in `usize`.
    pub fn add_big(&self, n: &BigNum) -> (r: Option<Relocatable>)
        ensures
            r == shifted(*self, n@),
    {
        let o = big_from_usize(self.offset);
        let s = big_add(&o, n);
        match big_to_usize(&s) {
            Some(x) => Some(Relocatable { segment_index: self.segment_index, offset: x }),
            None => None,
        }
    }
}

#[derive(Clone, Copy, Debug, PartialEq, Eq, Structural)]
pub enum MathError {
    /// Two addresses in different segments were subtracted.
    CrossSegmentArithmetic(Relocatable, Relocatable),
    /// The offset would leave the range of `usize`.
    OffsetNotRepresentable(Relocatable),
    RelocatableAdd,
    RelocatableMul,
    RelocatableDiv,
    /// The divisor has no inverse modulo the prime (it is a multiple of it).
    DividedByZero,
    SubRelocatableFromInt,
}

/// What a memory word holds, seen mathematically.
pub enum ValueModel {
    Int(int),
    Addr(Relocatable),
}

/// A memory word: a scalar or an address.
#[derive(Clone, Debug, PartialEq, Eq)]
pub enum MaybeRelocatable {
    Int(BigNum),
    RelocatableValue(Relocatable),
}

impl View for MaybeRelocatable {
    type V = ValueModel;

    open spec fn view(&self) -> ValueModel {
        match self {
            MaybeRelocatable::Int(n) => ValueModel::Int(n@),
            MaybeRelocatable::RelocatableValue(r) => ValueModel::Addr(*r),
        }
    }
}

impl MaybeRelocatable {
    /// A copy holding the same value.
    pub fn duplicate(&self) -> (r: MaybeRelocatable)
        ensures
            r@ == self@,
    {
        match self {
            MaybeRelocatable::Int(n) => MaybeRelocatable::Int(n.duplicate()),
            MaybeRelocatable::RelocatableValue(a) => MaybeRelocatable::RelocatableValue(*a),
        }
    }

    /// Field sum: scalars add modulo `prime`; an address moves by a scalar
    /// that fits as an offset; two addresses do not add.
    pub fn add(&self, other: &MaybeRelocatable, prime: &BigNum) -> (r: Result<MaybeRelocatable, MathError>)
        requires
            prime@ > 0,
        ensures
            match (self@, other@) {
                (ValueModel::Int(a), ValueModel::Int(b)) => r is Ok && r->Ok_0@ == ValueModel::Int((a + b) % prime@),
                (ValueModel::Addr(p), ValueModel::Int(n)) | (ValueModel::Int(n), ValueModel::Addr(p)) =>
                    match shifted(p, n) {
                        Some(q) => r is Ok && r->Ok_0@ == ValueModel::Addr(q),
                        None => r == Err::<MaybeRelocatable, MathError>(MathError::OffsetNotRepresentable(p)),
                    },
                _ => r == Err::<MaybeRelocatable, MathError>(MathError::RelocatableAdd),
            },
    {
        match (self, other) {
            (MaybeRelocatable::Int(a), MaybeRelocatable::Int(b)) => {
                let s = big_add(a, b);
                Ok(MaybeRelocatable::Int(mod_floor(&s, prime)))
            },
            (MaybeRelocatable::RelocatableValue(p), MaybeRelocatable::Int(n))
            | (MaybeRelocatable::Int(n), MaybeRelocatable::RelocatableValue(p)) => {
                match p.add_big(n) {
                    Some(q) => Ok(MaybeRelocatable::RelocatableValue(q)),
                    None => Err(MathError::OffsetNotRepresentable(*p)),
                }
            },
            _ => Err(MathError::RelocatableAdd),
        }
    }

    /// Field difference: scalars subtract modulo `prime`; two addresses in one
    /// segment give the difference of their offsets; an address less a scalar
    /// moves back.
    pub fn sub(&self, other: &MaybeRelocatable, prime: &BigNum) -> (r: Result<MaybeRelocatable, MathError>)
        requires
            prime@ > 0,
        ensures
            match (self@, other@) {
                (ValueModel::Int(a), ValueModel::Int(b)) => r is Ok && r->Ok_0@ == ValueModel::Int((a - b) % prime@),
                (ValueModel::Addr(p), ValueModel::Addr(q)) => if p.segment_index == q.segment_index {
                    r is Ok && r->Ok_0@ == ValueModel::Int(p.offset - q.offset)
                } else {
                    r == Err::<MaybeRelocatable, MathError>(MathError::CrossSegmentArithmetic(p, q))
                },
                (ValueModel::Addr(p), ValueModel::Int(n)) => match shifted(p, -n) {
                    Some(q) => r is Ok && r->Ok_0@ == ValueModel::Addr(q),
                    None => r == Err::<MaybeRelocatable, MathError>(MathError::OffsetNotRepresentable(p)),
                },
                (ValueModel::Int(_), ValueModel::Addr(_)) => r == Err::<MaybeRelocatable, MathError>(MathError::SubRelocatableFromInt),
            },
    {
        match (self, other) {
            (MaybeRelocatable::Int(a), MaybeRelocatable::Int(b)) => {
                let s = big_sub(a, b);
                Ok(MaybeRelocatable::Int(mod_floor(&s, prime)))
            },
            (MaybeRelocatable::RelocatableValue(p), MaybeRelocatable::RelocatableValue(q)) => {
                if p.segment_index != q.segment_index {
                    return Err(MathError::CrossSegmentArithmetic(*p, *q));
                }
                let x = big_from_usize(p.offset);
                let y = big_from_usize(q.offset);
                Ok(MaybeRelocatable::Int(big_sub(&x, &y)))
            },
            (MaybeRelocatable::RelocatableValue(p), MaybeRelocatable::Int(n)) => {
                let zero = BigNum::from_u32(0);
                let neg = big_sub(&zero, n);
                match p.add_big(&neg) {
                    Some(q) => Ok(MaybeRelocatable::RelocatableValue(q)),
                    None => Err(MathError::OffsetNotRepresentable(*p)),
                }
            },
            (MaybeRelocatable::Int(_), MaybeRelocatable::RelocatableValue(_)) => Err(MathError::SubRelocatableFromInt),
        }
    }

    /// Field product of two scalars; addresses do not multiply.
    pub fn mul(&self, other: &MaybeRelocatable, prime: &BigNum) -> (r: Result<MaybeRelocatable, MathError>)
        requires
            prime@ > 0,
        ensures
            match (self@, other@) {
                (ValueModel::Int(a), ValueModel::Int(b)) => r is Ok && r->Ok_0@ == ValueModel::Int((a * b) % prime@),
                _ => r == Err::<MaybeRelocatable, MathError>(MathError::RelocatableMul),
            },
    {
        match (self, other) {
            (MaybeRelocatable::Int(a), MaybeRelocatable::Int(b)) => {
                let s = big_mul(a, b);
                Ok(MaybeRelocatable::Int(mod_floor(&s, prime)))
            },
            _ => Err(MathError::RelocatableMul),
        }
    }

    /// Field quotient of two scalars: the value `q` in `[0, prime)` with
    /// `q * other == self` modulo `prime`, found through the inverse of
    /// `other`. Fails when `other` has no inverse; addresses do not divide.
    pub fn div(&self, other: &MaybeRelocatable, prime: &BigNum) -> (r: Result<MaybeRelocatable, MathError>)
        requires
            prime@ > 1,
        ensures
            match (self@, other@) {
                (ValueModel::Int(a), ValueModel::Int(b)) => {
                    &&& (r is Err <==> forall|x: int| #[trigger] ((b * x) % prime@) != 1)
                    &&& r is Err ==> r == Err::<MaybeRelocatable, MathError>(MathError::DividedByZero)
                    &&& r matches Ok(q) ==> q@ is Int && 0 <= q@->Int_0 < prime@
                        && (q@->Int_0 * b) % prime@ == a % prime@
                },
                _ => r == Err::<MaybeRelocatable, MathError>(MathError::RelocatableDiv),
            },
    {
        match (self, other) {
            (MaybeRelocatable::Int(a), MaybeRelocatable::Int(b)) => {
                match big_modinv(b, prime) {
                    None => Err(MathError::DividedByZero),
                    Some(x) => {
                        let s = big_mul(a, &x);
                        let q = mod_floor(&s, prime);
                        proof {
                            let p = prime@;
                            vstd::arithmetic::div_mod::lemma_mod_bound(a@ * x@, p);
                            vstd::arithmetic::div_mod::lemma_mul_mod_noop_left(a@ * x@, b@, p);
                            vstd::arithmetic::mul::lemma_mul_is_associative(a@, x@, b@);
                            vstd::arithmetic::mul::lemma_mul_is_commutative(x@, b@);
                            vstd::arithmetic::div_mod::lemma_mul_mod_noop_right(a@, x@ * b@, p);
                            assert(a@ * 1 == a@);
                        }
                        Ok(MaybeRelocatable::Int(q))
                    },
                }
            },
            _ => Err(MathError::RelocatableDiv),
        }
    }

    /// Whether the two words hold the same value.
    pub fn same_value(&self, other: &MaybeRelocatable) -> (r: bool)
        ensures
            r == (self@ == other@),
    {
        match (self, other) {
            (MaybeRelocatable::Int(a), MaybeRelocatable::Int(b)) => big_eq(a, b),
            (MaybeRelocatable::RelocatableValue(a), MaybeRelocatable::RelocatableValue(b)) => {
                a.segment_index == b.segment_index && a.offset == b.offset
            },
            _ => false,
        }
    }
}

} // verus!
