use vstd::prelude::*;

verus! {

use vstd::arithmetic::power2::pow2;
use vstd::arithmetic::power2::lemma_pow2_pos;
use vstd::arithmetic::div_mod::lemma_fundamental_div_mod;
use vstd::math::abs;

/// Unsigned value of a little-endian sequence of base-2^32 digits.
pub open spec fn mag_val(d: Seq<u32>) -> nat
    decreases d.len(),
{
    if d.len() == 0 {
        0
    } else {
        d.first() as nat + 0x1_0000_0000 * mag_val(d.drop_first())
    }
}

/// An arbitrary-precision signed integer: a sign flag and a little-endian
/// base-2^32 magnitude, kept in canonical form (see `wf`). Its mathematical
/// value is its view.
#[derive(Clone, Debug, PartialEq, Eq)]
pub struct Big {
    pub neg: bool,
    pub digits: Vec<u32>,
}

impl View for Big {
    type V = int;

    open spec fn view(&self) -> int {
        if self.neg {
            -(mag_val(self.digits@) as int)
        } else {
            mag_val(self.digits@) as int
        }
    }
}

impl Big {
    /// Canonical form: no leading zero digit, and zero is never negative.
    pub open spec fn wf(&self) -> bool {
        &&& self.digits@.len() > 0 ==> self.digits@.last() != 0
        &&& self.neg ==> self.digits@.len() > 0
    }
}

/// The value of a single digit.
proof fn lemma_mag_one(d: Seq<u32>)
    requires
        d.len() == 1,
    ensures
        mag_val(d) == d[0],
{
    let t = d.drop_first();
    assert(mag_val(t) == 0);
    assert(d.first() == d[0]);
}

/// The value of a two-digit sequence.
proof fn lemma_mag_two(d: Seq<u32>)
    requires
        d.len() == 2,
    ensures
        mag_val(d) == d[0] + 0x1_0000_0000 * (d[1] as nat),
{
    let t = d.drop_first();
    assert(t.len() == 1 && t[0] == d[1]);
    lemma_mag_one(t);
    assert(d.first() == d[0]);
}

/// A canonical non-empty digit sequence has a positive value.
pub proof fn lemma_mag_pos(d: Seq<u32>)
    requires
        d.len() > 0,
        d.last() != 0,
    ensures
        mag_val(d) > 0,
    decreases d.len(),
{
    if d.len() == 1 {
        assert(d.first() == d.last());
    } else {
        let t = d.drop_first();
        assert(t.last() == d.last());
        lemma_mag_pos(t);
        assert(0x1_0000_0000 * mag_val(t) > 0) by (nonlinear_arith)
            requires mag_val(t) > 0;
    }
}

/// In canonical form the sign flag and the digit count determine the sign of
/// the value.
pub proof fn lemma_sign(b: &Big)
    requires
        b.wf(),
    ensures
        b@ < 0 <==> b.neg,
        b@ == 0 <==> b.digits@.len() == 0,
        b@ > 0 <==> !b.neg && b.digits@.len() > 0,
{
    if b.digits@.len() > 0 {
        lemma_mag_pos(b.digits@);
    }
}

/// A canonical magnitude of three or more digits is at least 2^64.
proof fn lemma_mag_three_digits(d: Seq<u32>)
    requires
        d.len() >= 3,
        d.last() != 0,
    ensures
        mag_val(d) >= 0x1_0000_0000_0000_0000,
{
    let t1 = d.drop_first();
    let t2 = t1.drop_first();
    assert(t1.last() == d.last());
    assert(t2.last() == d.last());
    lemma_mag_pos(t2);
    assert(mag_val(t1) >= 0x1_0000_0000) by (nonlinear_arith)
        requires mag_val(t1) == t1.first() as nat + 0x1_0000_0000 * mag_val(t2), mag_val(t2) >= 1;
    assert(mag_val(d) >= 0x1_0000_0000_0000_0000) by (nonlinear_arith)
        requires mag_val(d) == d.first() as nat + 0x1_0000_0000 * mag_val(t1), mag_val(t1) >= 0x1_0000_0000;
}

/// Truncating (round-toward-zero) integer division, defined for any non-zero
/// divisor.
pub open spec fn trunc_div(a: int, b: int) -> int {
    if (a < 0) == (b < 0) {
        abs(a) as int / abs(b) as int
    } else {
        -(abs(a) as int / abs(b) as int)
    }
}

/// The remainder that pairs with `trunc_div`: it carries the sign of the
/// dividend.
pub open spec fn trunc_rem(a: int, b: int) -> int {
    a - b * trunc_div(a, b)
}

/// Bitwise AND over the unbounded two's-complement forms of two integers.
pub open spec fn bit_and_int(a: int, b: int) -> int
    decreases abs(a) + abs(b),
{
    if (a == 0 || a == -1) && (b == 0 || b == -1) {
        if a == -1 && b == -1 { -1 } else { 0 }
    } else {
        let bit: int = if a % 2 == 1 && b % 2 == 1 { 1 } else { 0 };
        2 * bit_and_int(a / 2, b / 2) + bit
    }
}

/// Bitwise OR over the unbounded two's-complement forms of two integers.
pub open spec fn bit_or_int(a: int, b: int) -> int
    decreases abs(a) + abs(b),
{
    if (a == 0 || a == -1) && (b == 0 || b == -1) {
        if a == -1 || b == -1 { -1 } else { 0 }
    } else {
        let bit: int = if a % 2 == 1 || b % 2 == 1 { 1 } else { 0 };
        2 * bit_or_int(a / 2, b / 2) + bit
    }
}

/// Bitwise XOR over the unbounded two's-complement forms of two integers.
pub open spec fn bit_xor_int(a: int, b: int) -> int
    decreases abs(a) + abs(b),
{
    if (a == 0 || a == -1) && (b == 0 || b == -1) {
        if (a == -1) != (b == -1) { -1 } else { 0 }
    } else {
        let bit: int = if (a % 2 == 1) != (b % 2 == 1) { 1 } else { 0 };
        2 * bit_xor_int(a / 2, b / 2) + bit
    }
}

impl Big {
    /// The canonical zero.
    pub fn zero() -> (r: Big)
        ensures
            r.wf(),
            r@ == 0,
    {
        Big { neg: false, digits: Vec::new() }
    }

    /// Builds the canonical form of an unsigned 64-bit value.
    pub fn from_u64(v: u64) -> (r: Big)
        ensures
            r.wf(),
            r@ == v as int,
    {
        if v == 0 {
            Big::zero()
        } else if v < 0x1_0000_0000 {
            let mut d: Vec<u32> = Vec::new();
            d.push(v as u32);
            proof {
                lemma_mag_one(d@);
            }
            Big { neg: false, digits: d }
        } else {
            let low: u32 = (v % 0x1_0000_0000) as u32;
            let high: u32 = (v / 0x1_0000_0000) as u32;
            let mut d: Vec<u32> = Vec::new();
            d.push(low);
            d.push(high);
            proof {
                lemma_fundamental_div_mod(v as int, 0x1_0000_0000);
                lemma_mag_two(d@);
            }
            Big { neg: false, digits: d }
        }
    }

    /// An exact copy.
    pub fn duplicate(&self) -> (r: Big)
        ensures
            r.neg == self.neg,
            r.digits@ == self.digits@,
            r@ == self@,
            r.wf() == self.wf(),
    {
        let mut d: Vec<u32> = Vec::new();
        let mut i: usize = 0;
        while i < self.digits.len()
            invariant
                i <= self.digits.len(),
                d@ == self.digits@.subrange(0, i as int),
            decreases self.digits.len() - i,
        {
            d.push(self.digits[i]);
            i = i + 1;
        }
        proof {
            assert(d@ =~= self.digits@);
        }
        Big { neg: self.neg, digits: d }
    }

    /// Exact negation.
    pub fn negated(&self) -> (r: Big)
        requires
            self.wf(),
        ensures
            r.wf(),
            r@ == -self@,
    {
        if self.digits.len() == 0 {
            Big::zero()
        } else {
            let c = self.duplicate();
            Big { neg: !self.neg, digits: c.digits }
        }
    }

    /// The absolute value.
    pub fn magnitude(&self) -> (r: Big)
        requires
            self.wf(),
        ensures
            r.wf(),
            r@ == abs(self@),
    {
        let c = self.duplicate();
        Big { neg: false, digits: c.digits }
    }

    /// Whether the value is zero.
    pub fn is_zero(&self) -> (r: bool)
        requires
            self.wf(),
        ensures
            r == (self@ == 0),
    {
        proof {
            lemma_sign(self);
        }
        self.digits.len() == 0
    }

    /// Whether the value is strictly negative.
    pub fn is_negative(&self) -> (r: bool)
        requires
            self.wf(),
        ensures
            r == (self@ < 0),
    {
        proof {
            lemma_sign(self);
        }
        self.neg
    }

    /// Reads the value back as a shift count: `Some` exactly when it is
    /// non-negative and representable in 64 bits.
    pub fn to_shift_amount(&self) -> (r: Option<u64>)
        requires
            self.wf(),
        ensures
            match r {
                Some(n) => self@ == n as int,
                None => self@ < 0 || self@ >= 0x1_0000_0000_0000_0000,
            },
    {
        proof {
            lemma_sign(self);
        }
        if self.neg {
            None
        } else if self.digits.len() >= 3 {
            proof {
                lemma_mag_three_digits(self.digits@);
            }
            None
        } else if self.digits.len() == 0 {
            Some(0)
        } else if self.digits.len() == 1 {
            let n = self.digits[0] as u64;
            proof {
                lemma_mag_one(self.digits@);
            }
            Some(n)
        } else {
            let n: u64 = self.digits[0] as u64 + (self.digits[1] as u64) * 0x1_0000_0000;
            proof {
                lemma_mag_two(self.digits@);
            }
            Some(n)
        }
    }
}

/// Relies on `core::ops::Add` for `num::BigInt`: exact arbitrary-precision
/// addition, with `to_u32_digits` returning the normalized magnitude.
#[verifier::external_body]
pub(crate) fn big_add(a: &Big, b: &Big) -> (r: Big)
    ensures
        r.wf(),
        r@ == a@ + b@,
{
    let sa = if a.neg { num::bigint::Sign::Minus } else { num::bigint::Sign::Plus };
    let sb = if b.neg { num::bigint::Sign::Minus } else { num::bigint::Sign::Plus };
    let x = num::BigInt::from_slice(sa, &a.digits) + num::BigInt::from_slice(sb, &b.digits);
    let (s, d) = x.to_u32_digits();
    Big { neg: s == num::bigint::Sign::Minus, digits: d }
}

/// Relies on `core::ops::Mul` for `num::BigInt`: exact arbitrary-precision
/// multiplication, with `to_u32_digits` returning the normalized magnitude.
#[verifier::external_body]
pub(crate) fn big_mul(a: &Big, b: &Big) -> (r: Big)
    ensures
        r.wf(),
        r@ == a@ * b@,
{
    let sa = if a.neg { num::bigint::Sign::Minus } else { num::bigint::Sign::Plus };
    let sb = if b.neg { num::bigint::Sign::Minus } else { num::bigint::Sign::Plus };
    let x = num::BigInt::from_slice(sa, &a.digits) * num::BigInt::from_slice(sb, &b.digits);
    let (s, d) = x.to_u32_digits();
    Big { neg: s == num::bigint::Sign::Minus, digits: d }
}

/// Relies on `core::ops::Div` for `num::BigInt`: exact quotient, rounded
/// toward zero, defined for a non-zero divisor.
#[verifier::external_body]
pub(crate) fn big_div(a: &Big, b: &Big) -> (r: Big)
    requires
        b@ != 0,
    ensures
        r.wf(),
        r@ == trunc_div(a@, b@),
{
    let sa = if a.neg { num::bigint::Sign::Minus } else { num::bigint::Sign::Plus };
    let sb = if b.neg { num::bigint::Sign::Minus } else { num::bigint::Sign::Plus };
    let x = num::BigInt::from_slice(sa, &a.digits) / num::BigInt::from_slice(sb, &b.digits);
    let (s, d) = x.to_u32_digits();
    Big { neg: s == num::bigint::Sign::Minus, digits: d }
}

/// Relies on `core::ops::Shl<u64>` for `num::BigInt`: a left shift multiplies
/// the value by 2^n exactly.
#[verifier::external_body]
pub(crate) fn big_shl(a: &Big, n: u64) -> (r: Big)
    ensures
        r.wf(),
        r@ == a@ * pow2(n as nat),
{
    let sa = if a.neg { num::bigint::Sign::Minus } else { num::bigint::Sign::Plus };
    let x = num::BigInt::from_slice(sa, &a.digits) << n;
    let (s, d) = x.to_u32_digits();
    Big { neg: s == num::bigint::Sign::Minus, digits: d }
}

/// Relies on `core::ops::Shr<u64>` for `num::BigInt`: an arithmetic right
/// shift that rounds toward negative infinity, that is, floor division by 2^n.
#[verifier::external_body]
pub(crate) fn big_shr(a: &Big, n: u64) -> (r: Big)
    ensures
        r.wf(),
        r@ == a@ / pow2(n as nat) as int,
{
    let sa = if a.neg { num::bigint::Sign::Minus } else { num::bigint::Sign::Plus };
    let x = num::BigInt::from_slice(sa, &a.digits) >> n;
    let (s, d) = x.to_u32_digits();
    Big { neg: s == num::bigint::Sign::Minus, digits: d }
}

/// Relies on `core::ops::BitAnd` for `num::BigInt`: bitwise AND over the
/// sign-extended two's-complement forms of the operands.
#[verifier::external_body]
pub(crate) fn big_and(a: &Big, b: &Big) -> (r: Big)
    ensures
        r.wf(),
        r@ == bit_and_int(a@, b@),
{
    let sa = if a.neg { num::bigint::Sign::Minus } else { num::bigint::Sign::Plus };
    let sb = if b.neg { num::bigint::Sign::Minus } else { num::bigint::Sign::Plus };
    let x = num::BigInt::from_slice(sa, &a.digits) & num::BigInt::from_slice(sb, &b.digits);
    let (s, d) = x.to_u32_digits();
    Big { neg: s == num::bigint::Sign::Minus, digits: d }
}

/// Relies on `core::ops::BitOr` for `num::BigInt`: bitwise OR over the
/// sign-extended two's-complement forms of the operands.
#[verifier::external_body]
pub(crate) fn big_or(a: &Big, b: &Big) -> (r: Big)
    ensures
        r.wf(),
        r@ == bit_or_int(a@, b@),
{
    let sa = if a.neg { num::bigint::Sign::Minus } else { num::bigint::Sign::Plus };
    let sb = if b.neg { num::bigint::Sign::Minus } else { num::bigint::Sign::Plus };
    let x = num::BigInt::from_slice(sa, &a.digits) | num::BigInt::from_slice(sb, &b.digits);
    let (s, d) = x.to_u32_digits();
    Big { neg: s == num::bigint::Sign::Minus, digits: d }
}

/// Relies on `core::ops::BitXor` for `num::BigInt`: bitwise XOR over the
/// sign-extended two's-complement forms of the operands.
#[verifier::external_body]
pub(crate) fn big_xor(a: &Big, b: &Big) -> (r: Big)
    ensures
        r.wf(),
        r@ == bit_xor_int(a@, b@),
{
    let sa = if a.neg { num::bigint::Sign::Minus } else { num::bigint::Sign::Plus };
    let sb = if b.neg { num::bigint::Sign::Minus } else { num::bigint::Sign::Plus };
    let x = num::BigInt::from_slice(sa, &a.digits) ^ num::BigInt::from_slice(sb, &b.digits);
    let (s, d) = x.to_u32_digits();
    Big { neg: s == num::bigint::Sign::Minus, digits: d }
}

/// Relies on `Ord` for `num::BigInt`: comparison by numeric value.
#[verifier::external_body]
pub(crate) fn big_cmp(a: &Big, b: &Big) -> (r: i8)
    ensures
        (r == -1i8) <==> a@ < b@,
        (r == 0i8) <==> a@ == b@,
        (r == 1i8) <==> a@ > b@,
{
    let sa = if a.neg { num::bigint::Sign::Minus } else { num::bigint::Sign::Plus };
    let sb = if b.neg { num::bigint::Sign::Minus } else { num::bigint::Sign::Plus };
    let x = num::BigInt::from_slice(sa, &a.digits);
    let y = num::BigInt::from_slice(sb, &b.digits);
    match x.cmp(&y) {
        core::cmp::Ordering::Less => -1,
        core::cmp::Ordering::Equal => 0,
        core::cmp::Ordering::Greater => 1,
    }
}

/// Exact subtraction, derived from addition and negation.
pub(crate) fn big_sub(a: &Big, b: &Big) -> (r: Big)
    requires
        b.wf(),
    ensures
        r.wf(),
        r@ == a@ - b@,
{
    big_add(a, &b.negated())
}

/// The remainder of truncating division, derived from `big_div`, `big_mul`
/// and `big_sub`; it carries the sign of the dividend.
pub(crate) fn big_rem(a: &Big, b: &Big) -> (r: Big)
    requires
        b@ != 0,
    ensures
        r.wf(),
        r@ == trunc_rem(a@, b@),
{
    let q = big_div(a, b);
    let p = big_mul(b, &q);
    big_sub(a, &p)
}

} // verus!
