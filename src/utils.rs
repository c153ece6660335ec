use vstd::prelude::*;
use vstd::std_specs::cmp::PartialEqSpec;
use crate::relocatable::Relocatable;
use crate::bignum::{BigNum, big_add, big_sub, big_div, mod_floor};

verus! {

/// Whether the items of `sub` occur in `s` in the same order, each matched
/// under the type's equality, not necessarily next to each other.
pub open spec fn subsequence_of<T: PartialEq>(sub: Seq<T>, s: Seq<T>) -> bool
    decreases s.len(),
{
    if sub.len() == 0 {
        true
    } else if s.len() == 0 {
        false
    } else if sub[0].eq_spec(&s[0]) {
        subsequence_of(sub.drop_first(), s.drop_first())
    } else {
        subsequence_of(sub, s.drop_first())
    }
}

proof fn lemma_subsequence_step<T: PartialEq>(sub: Seq<T>, s: Seq<T>, i: int, j: int)
    requires
        0 <= i < sub.len(),
        0 <= j < s.len(),
    ensures
        sub[i].eq_spec(&s[j]) ==> subsequence_of(sub.skip(i), s.skip(j)) == subsequence_of(sub.skip(i + 1), s.skip(j + 1)),
        !sub[i].eq_spec(&s[j]) ==> subsequence_of(sub.skip(i), s.skip(j)) == subsequence_of(sub.skip(i), s.skip(j + 1)),
{
    assert(sub.skip(i).drop_first() =~= sub.skip(i + 1));
    assert(s.skip(j).drop_first() =~= s.skip(j + 1));
    assert(sub.skip(i)[0] == sub[i]);
    assert(s.skip(j)[0] == s[j]);
}

/// Whether `subsequence` occurs in `sequence` in order, not necessarily contiguously.
pub fn is_subsequence<T: PartialEq>(subsequence: &[T], sequence: &[T]) -> (r: bool)
    ensures
        T::obeys_eq_spec() ==> r == subsequence_of(subsequence@, sequence@),
        subsequence@.len() == 0 ==> r,
        subsequence@.len() > 0 && sequence@.len() == 0 ==> !r,
{
    let mut i: usize = 0;
    let mut j: usize = 0;
    proof {
        assert(subsequence@.skip(0) =~= subsequence@);
        assert(sequence@.skip(0) =~= sequence@);
    }
    while i < subsequence.len()
        invariant
            i <= subsequence@.len(),
            j <= sequence@.len(),
            i > 0 ==> j > 0,
            T::obeys_eq_spec() ==> subsequence_of(subsequence@, sequence@)
                == subsequence_of(subsequence@.skip(i as int), sequence@.skip(j as int)),
        decreases subsequence@.len() - i,
    {
        loop
            invariant_except_break
                T::obeys_eq_spec() ==> subsequence_of(subsequence@, sequence@)
                    == subsequence_of(subsequence@.skip(i as int), sequence@.skip(j as int)),
            invariant
                i < subsequence@.len(),
                j <= sequence@.len(),
            ensures
                j > 0,
                T::obeys_eq_spec() ==> subsequence_of(subsequence@, sequence@)
                    == subsequence_of(subsequence@.skip(i + 1), sequence@.skip(j as int)),
            decreases sequence@.len() - j,
        {
            if j >= sequence.len() {
                proof {
                    assert(sequence@.skip(j as int).len() == 0);
                    assert(subsequence@.skip(i as int).len() > 0);
                }
                return false;
            }
            let found = subsequence[i] == sequence[j];
            proof {
                lemma_subsequence_step(subsequence@, sequence@, i as int, j as int);
            }
            j = j + 1;
            if found {
                break;
            }
        }
        i = i + 1;
    }
    proof {
        assert(subsequence@.skip(i as int).len() == 0);
    }
    true
}

/// The segment index and the offset of an address.
pub fn from_relocatable_to_indexes(relocatable: Relocatable) -> (r: (usize, usize))
    ensures
        r == (relocatable.segment_index, relocatable.offset),
{
    (relocatable.segment_index, relocatable.offset)
}

/// The representative of `n` modulo `p` in `(-p/2, p/2]`.
pub open spec fn normalize(n: int, p: int) -> int
    recommends
        p > 1,
{
    let h = (p - 1) / 2;
    (n + h) % p - h
}

/// The normalized value lies in `(-p/2, p/2]` and differs from `n` by a
/// multiple of `p`.
pub proof fn lemma_normalize(n: int, p: int)
    requires
        p > 1,
    ensures
        -p < 2 * normalize(n, p) <= p,
        (normalize(n, p) - n) % p == 0,
{
    let h = (p - 1) / 2;
    let m = (n + h) % p;
    vstd::arithmetic::div_mod::lemma_fundamental_div_mod(n + h, p);
    vstd::arithmetic::div_mod::lemma_mod_bound(n + h, p);
    let q = (n + h) / p;
    assert(normalize(n, p) - n == (-q) * p) by (nonlinear_arith)
        requires
            n + h == p * q + m,
            normalize(n, p) == m - h;
    vstd::arithmetic::div_mod::lemma_fundamental_div_mod_converse((-q) * p, p, -q, 0);
}

/// Converts `num` to the integer in `(-prime/2, prime/2]` that is equal to it
/// modulo `prime`.
pub fn to_field_element(num: BigNum, prime: BigNum) -> (r: BigNum)
    requires
        prime@ > 1,
    ensures
        r@ == normalize(num@, prime@),
{
    let one = BigNum::from_u32(1);
    let two = BigNum::from_u32(2);
    let pm1 = big_sub(&prime, &one);
    let half = big_div(&pm1, &two);
    let shifted = big_add(&num, &half);
    let m = mod_floor(&shifted, &prime);
    big_sub(&m, &half)
}

} // verus!
