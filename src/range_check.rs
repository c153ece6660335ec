use vstd::prelude::*;
use vstd::arithmetic::power::pow;
use crate::utils::normalize;
use crate::bignum::{BigNum, big_mul, big_lt, big_div, big_rem};
use crate::memory::{Memory, cell_view};
use crate::relocatable::{Relocatable, MaybeRelocatable, ValueModel};

verus! {

/// Limb `k` of the decomposition of `v` into `n` base-`b` limbs, least
/// significant first; the top limb takes what is left.
pub open spec fn limb(v: int, b: int, n: nat, k: nat) -> int {
    if k + 1 < n {
        (v / pow(b, k)) % b
    } else {
        v / pow(b, k)
    }
}

/// Whether `v` is a non-negative integer below `b^n`.
pub open spec fn in_range(v: int, b: int, n: nat) -> bool {
    0 <= v < pow(b, n)
}

/// Whether the range check accepts a memory word.
pub open spec fn accepted(v: ValueModel, b: int, n: nat) -> bool {
    match v {
        ValueModel::Int(x) => in_range(x, b, n),
        ValueModel::Addr(_) => false,
    }
}

/// A non-negative value is below `b^n` exactly when each of its `n` limbs is
/// below `b`.
pub proof fn lemma_range_by_limbs(v: int, b: int, n: nat)
    requires
        b > 0,
        n >= 1,
        v >= 0,
    ensures
        in_range(v, b, n) <==> forall|k: nat| k < n ==> #[trigger] limb(v, b, n, k) < b,
{
    let d = pow(b, (n - 1) as nat);
    vstd::arithmetic::power::lemma_pow_positive(b, (n - 1) as nat);
    reveal(pow);
    assert(pow(b, n) == b * d);
    vstd::arithmetic::div_mod::lemma_fundamental_div_mod(v, d);
    vstd::arithmetic::div_mod::lemma_mod_pos_bound(v, d);
    let q = v / d;
    let r = v % d;
    assert(v < b * d <==> q < b) by (nonlinear_arith)
        requires
            v == d * q + r,
            0 <= r < d,
            d > 0;
    assert forall|k: nat| k + 1 < n implies #[trigger] limb(v, b, n, k) < b by {
        vstd::arithmetic::div_mod::lemma_mod_bound(v / pow(b, k), b);
    }
    assert(limb(v, b, n, (n - 1) as nat) == q);
}

/// Limb `k` of `v` in base `b`.
pub open spec fn usage_limb(v: int, b: int, k: nat) -> int {
    (v / pow(b, k)) % b
}

/// The `n` limbs of each accepted value in `s`, in order.
pub open spec fn validated_limbs(s: Seq<Option<ValueModel>>, b: int, n: nat) -> Seq<int>
    decreases s.len(),
{
    if s.len() == 0 {
        Seq::empty()
    } else {
        validated_limbs(s.drop_last(), b, n) + match s.last() {
            Some(ValueModel::Int(v)) => if in_range(v, b, n) {
                Seq::new(n, |k: int| usage_limb(v, b, k as nat))
            } else {
                Seq::empty()
            },
            _ => Seq::empty(),
        }
    }
}

/// The error for a word the range check rejects at `addr`.
pub open spec fn rejection_at(addr: Relocatable, v: ValueModel) -> RunnerError {
    match v {
        ValueModel::Int(_) => RunnerError::OutOfRangeValue(addr),
        ValueModel::Addr(_) => RunnerError::FoundNonInt(addr),
    }
}

/// A value the range check accepts, under a bound at most half the
/// modulus, is its own normalized form: non-negative and unchanged. So a
/// value whose normalized form is negative has a limb out of range.
pub proof fn lemma_accepted_is_normalized(v: int, b: int, n: nat, p: int)
    requires
        b > 0,
        p > 1,
        2 * pow(b, n) <= p,
        in_range(v, b, n),
    ensures
        normalize(v, p) == v,
        v >= 0,
{
    let h = (p - 1) / 2;
    assert(v <= h);
    vstd::arithmetic::div_mod::lemma_small_mod((v + h) as nat, p as nat);
}

#[derive(Clone, Copy, Debug, PartialEq, Eq, Structural)]
pub enum RunnerError {
    /// A value outside the range, at the given address when one is known.
    OutOfRangeValue(Relocatable),
    /// An address where an integer was expected.
    FoundNonInt(Relocatable),
    /// The runner's segment was never allocated.
    MissingSegment(usize),
}

/// Checks that the values written into its segment are non-negative and fit
/// in `n_parts` limbs below `inner_rc_bound`.
pub struct RangeCheckBuiltinRunner {
    /// Whether each write is checked as it happens, rather than at the end.
    pub included: bool,
    pub inner_rc_bound: BigNum,
    pub n_parts: u32,
    pub base: usize,
    /// `inner_rc_bound` to the power `n_parts`.
    pub bound: BigNum,
}

impl RangeCheckBuiltinRunner {
    pub open spec fn wf(&self) -> bool {
        &&& self.inner_rc_bound@ > 0
        &&& self.bound@ == pow(self.inner_rc_bound@, self.n_parts as nat)
    }

    /// Whether every word written in the runner's segment of `m` is accepted.
    pub open spec fn segment_accepted(&self, m: Seq<Seq<Option<ValueModel>>>) -> bool {
        &&& self.base < m.len()
        &&& forall|j: int|
            0 <= j < m[self.base as int].len() && (#[trigger] m[self.base as int][j]) is Some
                ==> self.accepts(m[self.base as int][j]->0)
    }

    /// Whether the cell at offset `j` of the runner's segment is the first
    /// written one that the runner rejects.
    pub open spec fn first_rejected(&self, m: Seq<Seq<Option<ValueModel>>>, j: int) -> bool {
        let s = m[self.base as int];
        &&& self.base < m.len()
        &&& 0 <= j < s.len()
        &&& s[j] is Some
        &&& !self.accepts(s[j]->0)
        &&& forall|k: int| 0 <= k < j && (#[trigger] s[k]) is Some ==> self.accepts(s[k]->0)
    }

    /// Whether the runner accepts this word.
    pub open spec fn accepts(&self, v: ValueModel) -> bool {
        accepted(v, self.inner_rc_bound@, self.n_parts as nat)
    }

    pub fn new(included: bool, inner_rc_bound: BigNum, n_parts: u32) -> (r: RangeCheckBuiltinRunner)
        requires
            inner_rc_bound@ > 0,
        ensures
            r.wf(),
            r.included == included,
            r.inner_rc_bound@ == inner_rc_bound@,
            r.n_parts == n_parts,
            r.base == 0,
    {
        let mut bound = BigNum::from_u32(1);
        proof {
            reveal(pow);
        }
        let mut i: u32 = 0;
        while i < n_parts
            invariant
                i <= n_parts,
                bound@ == pow(inner_rc_bound@, i as nat),
            decreases n_parts - i,
        {
            bound = big_mul(&bound, &inner_rc_bound);
            proof {
                reveal(pow);
                assert(pow(inner_rc_bound@, (i + 1) as nat) == inner_rc_bound@ * pow(inner_rc_bound@, i as nat));
            }
            i = i + 1;
        }
        RangeCheckBuiltinRunner { included, inner_rc_bound, n_parts, base: 0, bound }
    }

    /// Allocates the runner's segment in `memory` and returns its index.
    pub fn initialize_segments(&mut self, memory: &mut Memory) -> (r: usize)
        requires
            old(memory)@.len() < usize::MAX,
        ensures
            r == old(memory)@.len(),
            final(memory)@ == old(memory)@.push(Seq::<Option<ValueModel>>::empty()),
            final(self).base == r,
            final(self).wf() == old(self).wf(),
            final(self).inner_rc_bound@ == old(self).inner_rc_bound@,
            final(self).n_parts == old(self).n_parts,
            final(self).included == old(self).included,
    {
        let r = memory.add_segment();
        self.base = r;
        r
    }

    /// Checks the word `value` written at `addr`.
    pub fn validate(&self, addr: &Relocatable, value: &MaybeRelocatable) -> (r: Result<(), RunnerError>)
        requires
            self.wf(),
        ensures
            r is Ok <==> self.accepts(value@),
            value is RelocatableValue ==> r == Err::<(), RunnerError>(RunnerError::FoundNonInt(*addr)),
            (value is Int && !self.accepts(value@)) ==> r == Err::<(), RunnerError>(RunnerError::OutOfRangeValue(*addr)),
    {
        match value {
            MaybeRelocatable::Int(n) => {
                let zero = BigNum::from_u32(0);
                if !big_lt(n, &zero) && big_lt(n, &self.bound) {
                    Ok(())
                } else {
                    Err(RunnerError::OutOfRangeValue(*addr))
                }
            },
            MaybeRelocatable::RelocatableValue(_) => Err(RunnerError::FoundNonInt(*addr)),
        }
    }

    /// The smallest and the largest limb of the accepted values in the
    /// runner's segment; `None` when there is no such limb.
    pub fn get_range_check_usage(&self, memory: &Memory) -> (r: Option<(BigNum, BigNum)>)
        requires
            self.wf(),
        ensures
            self.base >= memory@.len() ==> r is None,
            self.base < memory@.len() ==> {
                let l = validated_limbs(memory@[self.base as int], self.inner_rc_bound@, self.n_parts as nat);
                &&& (r is None <==> l.len() == 0)
                &&& r matches Some((lo, hi)) ==> {
                    &&& l.contains(lo@)
                    &&& l.contains(hi@)
                    &&& forall|i: int| 0 <= i < l.len() ==> lo@ <= #[trigger] l[i] <= hi@
                }
            },
    {
        if self.base >= memory.data.len() {
            return None;
        }
        let b = &self.inner_rc_bound;
        let n = self.n_parts;
        let seg = &memory.data[self.base];
        let ghost s = memory@[self.base as int];
        let ghost bv = b@;
        assert(s.len() == seg@.len());
        let mut acc: Option<(BigNum, BigNum)> = None;
        let mut j: usize = 0;
        assert(s.take(0) =~= Seq::<Option<ValueModel>>::empty());
        while j < seg.len()
            invariant
                self.wf(),
                b == &self.inner_rc_bound,
                bv == b@,
                n == self.n_parts,
                self.base < memory@.len(),
                seg == &memory.data@[self.base as int],
                s == memory@[self.base as int],
                s.len() == seg@.len(),
                j <= seg@.len(),
                ({
                    let l = validated_limbs(s.take(j as int), bv, n as nat);
                    &&& (acc is None <==> l.len() == 0)
                    &&& acc matches Some((lo, hi)) ==> {
                        &&& l.contains(lo@)
                        &&& l.contains(hi@)
                        &&& forall|i: int| 0 <= i < l.len() ==> lo@ <= #[trigger] l[i] <= hi@
                    }
                }),
            decreases seg@.len() - j,
        {
            let ghost l0 = validated_limbs(s.take(j as int), bv, n as nat);
            assert(s.take(j as int + 1).drop_last() =~= s.take(j as int));
            assert(s.take(j as int + 1).last() == s[j as int]);
            assert(s[j as int] == cell_view(seg@[j as int]));
            let addr = Relocatable { segment_index: self.base, offset: j };
            match &seg[j] {
                Some(v) => {
                    if self.validate(&addr, v).is_ok() {
                        if let MaybeRelocatable::Int(x0) = v {
                            let ghost vv = x0@;
                            let mut x = x0.duplicate();
                            let mut k: u32 = 0;
                            proof {
                                reveal(pow);
                            }
                            while k < n
                                invariant
                                    self.wf(),
                                    bv == b@,
                                    bv > 0,
                                    k <= n,
                                    0 <= vv,
                                    x@ == vv / pow(bv, k as nat),
                                    ({
                                        let l = l0 + Seq::new(k as nat, |i: int| usage_limb(vv, bv, i as nat));
                                        &&& (acc is None <==> l.len() == 0)
                                        &&& acc matches Some((lo, hi)) ==> {
                                            &&& l.contains(lo@)
                                            &&& l.contains(hi@)
                                            &&& forall|i: int| 0 <= i < l.len() ==> lo@ <= #[trigger] l[i] <= hi@
                                        }
                                    }),
                                decreases n - k,
                            {
                                let ghost lk = l0 + Seq::new(k as nat, |i: int| usage_limb(vv, bv, i as nat));
                                let ghost lk1 = l0 + Seq::new((k + 1) as nat, |i: int| usage_limb(vv, bv, i as nat));
                                proof {
                                    vstd::arithmetic::power::lemma_pow_positive(bv, k as nat);
                                    vstd::arithmetic::div_mod::lemma_div_pos_is_pos(vv, pow(bv, k as nat));
                                }
                                let limb = big_rem(&x, b);
                                assert(limb@ == usage_limb(vv, bv, k as nat));
                                assert(lk1 =~= lk.push(limb@));
                                acc = match acc {
                                    None => Some((limb.duplicate(), limb)),
                                    Some((lo, hi)) => {
                                        let lo2 = if big_lt(&limb, &lo) { limb.duplicate() } else { lo };
                                        let hi2 = if big_lt(&hi, &limb) { limb } else { hi };
                                        Some((lo2, hi2))
                                    },
                                };
                                proof {
                                    assert(lk1[lk.len() as int] == limb@);
                                    assert(forall|i: int| 0 <= i < lk.len() ==> lk1[i] == #[trigger] lk[i]);
                                }
                                x = big_div(&x, b);
                                proof {
                                    reveal(pow);
                                    vstd::arithmetic::div_mod::lemma_div_denominator(vv, pow(bv, k as nat), bv);
                                    assert(pow(bv, (k + 1) as nat) == bv * pow(bv, k as nat));
                                    vstd::arithmetic::mul::lemma_mul_is_commutative(bv, pow(bv, k as nat));
                                }
                                k = k + 1;
                            }
                            proof {
                                assert(validated_limbs(s.take(j as int + 1), bv, n as nat)
                                    =~= l0 + Seq::new(n as nat, |i: int| usage_limb(vv, bv, i as nat)));
                            }
                        }
                    } else {
                        proof {
                            assert(validated_limbs(s.take(j as int + 1), bv, n as nat) =~= l0);
                        }
                    }
                },
                None => {
                    proof {
                        assert(validated_limbs(s.take(j as int + 1), bv, n as nat) =~= l0);
                    }
                },
            }
            j = j + 1;
        }
        assert(s.take(j as int) =~= s);
        acc
    }

    /// Checks every word written in the runner's segment.
    pub fn final_check(&self, memory: &Memory) -> (r: Result<(), RunnerError>)
        requires
            self.wf(),
        ensures
            self.base >= memory@.len() ==> r == Err::<(), RunnerError>(RunnerError::MissingSegment(self.base)),
            r is Ok <==> self.segment_accepted(memory@),
            (self.base < memory@.len() && r is Err) ==> exists|j: int| #[trigger] self.first_rejected(memory@, j)
                && r == Err::<(), RunnerError>(rejection_at(
                    Relocatable { segment_index: self.base, offset: j as usize },
                    memory@[self.base as int][j]->0,
                )),
    {
        if self.base >= memory.data.len() {
            return Err(RunnerError::MissingSegment(self.base));
        }
        let seg = &memory.data[self.base];
        let ghost s = memory@[self.base as int];
        assert(s.len() == seg@.len());
        let mut j: usize = 0;
        while j < seg.len()
            invariant
                self.wf(),
                self.base < memory@.len(),
                seg == &memory.data@[self.base as int],
                s == memory@[self.base as int],
                s.len() == seg@.len(),
                j <= seg@.len(),
                forall|k: int| 0 <= k < j && (#[trigger] s[k]) is Some ==> self.accepts(s[k]->0),
            decreases seg@.len() - j,
        {
            assert(s[j as int] == cell_view(seg@[j as int]));
            match &seg[j] {
                Some(v) => {
                    let addr = Relocatable { segment_index: self.base, offset: j };
                    match self.validate(&addr, v) {
                        Ok(()) => {},
                        Err(e) => {
                            assert(self.first_rejected(memory@, j as int));
                            return Err(e);
                        },
                    }
                },
                None => {},
            }
            j = j + 1;
        }
        Ok(())
    }
}

} // verus!
