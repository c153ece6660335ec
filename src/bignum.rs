use vstd::prelude::*;
use num_bigint::{BigInt, Sign};

verus! {

/// Value of a little-endian sequence of base-2^32 digits.
pub open spec fn digits_value(d: Seq<u32>) -> nat
    decreases d.len(),
{
    if d.len() == 0 {
        0
    } else {
        (d[0] as nat) + 0x1_0000_0000 * digits_value(d.drop_first())
    }
}

/// Quotient of the division that rounds toward zero.
pub open spec fn trunc_div(a: int, b: int) -> int {
    let q = abs(a) / abs(b);
    if (a < 0) == (b < 0) { q } else { -q }
}

/// Remainder of the division that rounds toward zero: it takes the sign of `a`.
pub open spec fn trunc_rem(a: int, b: int) -> int {
    if a >= 0 { a % abs(b) } else { -((-a) % abs(b)) }
}

pub open spec fn abs(a: int) -> int {
    if a < 0 { -a } else { a }
}

/// An arbitrary-precision integer held as a sign and base-2^32 digits,
/// least significant first. A zero magnitude is zero whatever the sign.
#[derive(Clone, Debug, PartialEq, Eq)]
pub struct BigNum {
    pub negative: bool,
    pub digits: Vec<u32>,
}

impl View for BigNum {
    type V = int;

    open spec fn view(&self) -> int {
        let m = digits_value(self.digits@) as int;
        if self.negative { -m } else { m }
    }
}

impl BigNum {
    /// A copy holding the same value.
    pub fn duplicate(&self) -> (r: BigNum)
        ensures
            r@ == self@,
    {
        let d = self.digits.clone();
        assert(d@ =~= self.digits@);
        BigNum { negative: self.negative, digits: d }
    }

    /// The value `n`.
    pub fn from_u32(n: u32) -> (r: BigNum)
        ensures
            r@ == n as int,
    {
        let r = BigNum { negative: false, digits: vec![n] };
        proof {
            reveal_with_fuel(digits_value, 2);
        }
        r
    }
}

/// Relies on `BigInt + BigInt` of num-bigint: the exact sum.
#[verifier::external_body]
pub(crate) fn big_add(a: &BigNum, b: &BigNum) -> (r: BigNum)
    ensures
        r@ == a@ + b@,
{
    let x = BigInt::new(if a.negative { Sign::Minus } else { Sign::Plus }, a.digits.clone());
    let y = BigInt::new(if b.negative { Sign::Minus } else { Sign::Plus }, b.digits.clone());
    let (s, d) = (x + y).to_u32_digits();
    BigNum { negative: s == Sign::Minus, digits: d }
}

/// Relies on `BigInt - BigInt` of num-bigint: the exact difference.
#[verifier::external_body]
pub(crate) fn big_sub(a: &BigNum, b: &BigNum) -> (r: BigNum)
    ensures
        r@ == a@ - b@,
{
    let x = BigInt::new(if a.negative { Sign::Minus } else { Sign::Plus }, a.digits.clone());
    let y = BigInt::new(if b.negative { Sign::Minus } else { Sign::Plus }, b.digits.clone());
    let (s, d) = (x - y).to_u32_digits();
    BigNum { negative: s == Sign::Minus, digits: d }
}

/// Relies on `BigInt * BigInt` of num-bigint: the exact product.
#[verifier::external_body]
pub(crate) fn big_mul(a: &BigNum, b: &BigNum) -> (r: BigNum)
    ensures
        r@ == a@ * b@,
{
    let x = BigInt::new(if a.negative { Sign::Minus } else { Sign::Plus }, a.digits.clone());
    let y = BigInt::new(if b.negative { Sign::Minus } else { Sign::Plus }, b.digits.clone());
    let (s, d) = (x * y).to_u32_digits();
    BigNum { negative: s == Sign::Minus, digits: d }
}

/// Relies on `BigInt / BigInt` of num-bigint: the quotient rounded toward
/// zero. It panics on a zero divisor.
#[verifier::external_body]
pub(crate) fn big_div(a: &BigNum, b: &BigNum) -> (r: BigNum)
    requires
        b@ != 0,
    ensures
        r@ == trunc_div(a@, b@),
{
    let x = BigInt::new(if a.negative { Sign::Minus } else { Sign::Plus }, a.digits.clone());
    let y = BigInt::new(if b.negative { Sign::Minus } else { Sign::Plus }, b.digits.clone());
    let (s, d) = (x / y).to_u32_digits();
    BigNum { negative: s == Sign::Minus, digits: d }
}

/// Relies on `BigInt % BigInt` of num-bigint: the remainder of the division
/// rounded toward zero. It panics on a zero divisor.
#[verifier::external_body]
pub(crate) fn big_rem(a: &BigNum, b: &BigNum) -> (r: BigNum)
    requires
        b@ != 0,
    ensures
        r@ == trunc_rem(a@, b@),
{
    let x = BigInt::new(if a.negative { Sign::Minus } else { Sign::Plus }, a.digits.clone());
    let y = BigInt::new(if b.negative { Sign::Minus } else { Sign::Plus }, b.digits.clone());
    let (s, d) = (x % y).to_u32_digits();
    BigNum { negative: s == Sign::Minus, digits: d }
}

/// Relies on `BigInt == BigInt` of num-bigint: equality of the values.
#[verifier::external_body]
pub(crate) fn big_eq(a: &BigNum, b: &BigNum) -> (r: bool)
    ensures
        r == (a@ == b@),
{
    let x = BigInt::new(if a.negative { Sign::Minus } else { Sign::Plus }, a.digits.clone());
    let y = BigInt::new(if b.negative { Sign::Minus } else { Sign::Plus }, b.digits.clone());
    x == y
}

/// Relies on `BigInt < BigInt` of num-bigint: the order of the values.
#[verifier::external_body]
pub(crate) fn big_lt(a: &BigNum, b: &BigNum) -> (r: bool)
    ensures
        r == (a@ < b@),
{
    let x = BigInt::new(if a.negative { Sign::Minus } else { Sign::Plus }, a.digits.clone());
    let y = BigInt::new(if b.negative { Sign::Minus } else { Sign::Plus }, b.digits.clone());
    x < y
}

/// Relies on `TryFrom<&BigInt> for usize` of num-bigint: the same value
/// when it lies in `usize`'s range, an error otherwise.
#[verifier::external_body]
pub(crate) fn big_to_usize(a: &BigNum) -> (r: Option<usize>)
    ensures
        r == (if 0 <= a@ <= usize::MAX { Some(a@ as usize) } else { None::<usize> }),
{
    let x = BigInt::new(if a.negative { Sign::Minus } else { Sign::Plus }, a.digits.clone());
    usize::try_from(&x).ok()
}

proof fn lemma_trunc_rem_floor(s: int, p: int)
    requires
        p > 0,
    ensures
        trunc_rem(s, p) < 0 ==> trunc_rem(s, p) + p == s % p,
        trunc_rem(s, p) >= 0 ==> trunc_rem(s, p) == s % p,
{
    assert(abs(p) == p);
    if s < 0 {
        let m = (-s) % p;
        let q = (-s) / p;
        assert(-s == p * q + m) by {
            vstd::arithmetic::div_mod::lemma_fundamental_div_mod(-s, p);
        }
        assert(0 <= m < p) by {
            vstd::arithmetic::div_mod::lemma_mod_bound(-s, p);
        }
        if m > 0 {
            assert(s == (-q - 1) * p + (p - m)) by (nonlinear_arith)
                requires -s == p * q + m;
            vstd::arithmetic::div_mod::lemma_fundamental_div_mod_converse(s, p, -q - 1, p - m);
        } else {
            assert(s == (-q) * p + 0) by (nonlinear_arith)
                requires -s == p * q + m, m == 0;
            vstd::arithmetic::div_mod::lemma_fundamental_div_mod_converse(s, p, -q, 0);
        }
    }
}

/// `a` modulo `m`, in `[0, m)`.
pub fn mod_floor(a: &BigNum, m: &BigNum) -> (r: BigNum)
    requires
        m@ > 0,
    ensures
        r@ == a@ % m@,
{
    let t = big_rem(a, m);
    proof {
        lemma_trunc_rem_floor(a@, m@);
    }
    let zero = BigNum::from_u32(0);
    if big_lt(&t, &zero) {
        big_add(&t, m)
    } else {
        t
    }
}

/// Relies on `BigInt::modinv` of num-bigint: the inverse of `a` modulo `m`,
/// in `[0, m)`, when one exists, `None` otherwise. It panics on a zero
/// modulus (and a modulus of one is left out).
#[verifier::external_body]
pub(crate) fn big_modinv(a: &BigNum, m: &BigNum) -> (r: Option<BigNum>)
    requires
        m@ > 1,
    ensures
        r matches Some(x) ==> 0 <= x@ < m@ && (a@ * x@) % m@ == 1,
        r is None ==> forall|x: int| #[trigger] ((a@ * x) % m@) != 1,
{
    let x = BigInt::new(if a.negative { Sign::Minus } else { Sign::Plus }, a.digits.clone());
    let y = BigInt::new(if m.negative { Sign::Minus } else { Sign::Plus }, m.digits.clone());
    match x.modinv(&y) {
        Some(v) => {
            let (s, d) = v.to_u32_digits();
            Some(BigNum { negative: s == Sign::Minus, digits: d })
        },
        None => None,
    }
}

/// Relies on `From<usize> for BigInt` of num-bigint: the same value.
#[verifier::external_body]
pub(crate) fn big_from_usize(n: usize) -> (r: BigNum)
    ensures
        r@ == n as int,
{
    let (s, d) = BigInt::from(n).to_u32_digits();
    BigNum { negative: s == Sign::Minus, digits: d }
}

} // verus!
