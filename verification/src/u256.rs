//! Checked arithmetic, comparison, bitwise operations, shifts and
//! casts on 256-bit unsigned integers, each against the value the
//! operands denote.

use crate::bytecode::U256;
use vstd::prelude::*;

verus! {

/// `2^128`.
pub open spec fn two_pow_128() -> nat {
    0x1_0000_0000_0000_0000_0000_0000_0000_0000nat
}

/// `2^256`.
pub open spec fn two_pow_256() -> nat {
    two_pow_128() * two_pow_128()
}

/// `2^n`.
pub open spec fn pow2(n: nat) -> nat
    decreases n,
{
    if n == 0 {
        1
    } else {
        2 * pow2((n - 1) as nat)
    }
}

proof fn lemma_pow2_add(a: nat, b: nat)
    ensures
        pow2(a + b) == pow2(a) * pow2(b),
    decreases a,
{
    if a == 0 {
        assert(pow2(0) == 1);
        assert(pow2(a + b) == pow2(b));
    } else {
        lemma_pow2_add((a - 1) as nat, b);
        assert(pow2(a) == 2 * pow2((a - 1) as nat));
        assert(pow2(a + b) == 2 * pow2((a - 1 + b) as nat));
        assert(2 * (pow2((a - 1) as nat) * pow2(b)) == (2 * pow2((a - 1) as nat)) * pow2(b))
            by (nonlinear_arith);
    }
}

proof fn lemma_pow2_positive(n: nat)
    ensures
        pow2(n) >= 1,
    decreases n,
{
    if n > 0 {
        lemma_pow2_positive((n - 1) as nat);
    }
}

proof fn lemma_pow2_monotone(a: nat, b: nat)
    requires
        a <= b,
    ensures
        pow2(a) <= pow2(b),
    decreases b - a,
{
    if a < b {
        lemma_pow2_monotone(a, (b - 1) as nat);
        lemma_pow2_positive((b - 1) as nat);
    }
}

proof fn lemma_pow2_big()
    ensures
        pow2(128) == two_pow_128(),
        pow2(256) == two_pow_256(),
{
    reveal_with_fuel(pow2, 9);
    assert(pow2(8) == 256);
    lemma_pow2_add(8, 8);
    assert(pow2(16) == 0x1_0000);
    lemma_pow2_add(16, 16);
    assert(pow2(32) == 0x1_0000_0000);
    lemma_pow2_add(32, 32);
    assert(pow2(64) == 0x1_0000_0000_0000_0000);
    lemma_pow2_add(64, 64);
    assert(pow2(128) == two_pow_128());
    lemma_pow2_add(128, 128);
}

/// Every 256-bit value is below `2^256`.
pub proof fn lemma_value_bound(a: U256)
    ensures
        a.value() < two_pow_256(),
{
    assert(a.value() < two_pow_256()) by (nonlinear_arith)
        requires
            a.value() == (a.hi as nat) * two_pow_128() + (a.lo as nat),
            a.hi < two_pow_128(),
            a.lo < two_pow_128(),
            two_pow_256() == two_pow_128() * two_pow_128(),
    ;
}

/// The value of halves `hi` and `lo` determines the halves.
proof fn lemma_value_unique(a: U256, b: U256)
    requires
        a.value() == b.value(),
    ensures
        a == b,
{
    assert(a.hi == b.hi && a.lo == b.lo) by (nonlinear_arith)
        requires
            (a.hi as nat) * two_pow_128() + (a.lo as nat) == (b.hi as nat) * two_pow_128() + (
            b.lo as nat),
            a.lo < two_pow_128(),
            b.lo < two_pow_128(),
            two_pow_128() > 0,
    ;
}

/// Distinct 32-byte little-endian encodings have distinct values.
pub proof fn lemma_u256_from_le_seq_injective(a: Seq<u8>, b: Seq<u8>)
    requires
        a.len() == 32,
        b.len() == 32,
        U256::from_le_seq(a).value() == U256::from_le_seq(b).value(),
    ensures
        a == b,
{
    lemma_value_unique(U256::from_le_seq(a), U256::from_le_seq(b));
    vstd::bytes::lemma_auto_spec_u128_to_from_le_bytes();
    assert(a.subrange(0, 16) =~= b.subrange(0, 16)) by {
        assert(vstd::bytes::spec_u128_to_le_bytes(vstd::bytes::spec_u128_from_le_bytes(a.subrange(0, 16))) == a.subrange(0, 16));
        assert(vstd::bytes::spec_u128_to_le_bytes(vstd::bytes::spec_u128_from_le_bytes(b.subrange(0, 16))) == b.subrange(0, 16));
    }
    assert(a.subrange(16, 32) =~= b.subrange(16, 32)) by {
        assert(vstd::bytes::spec_u128_to_le_bytes(vstd::bytes::spec_u128_from_le_bytes(a.subrange(16, 32))) == a.subrange(16, 32));
        assert(vstd::bytes::spec_u128_to_le_bytes(vstd::bytes::spec_u128_from_le_bytes(b.subrange(16, 32))) == b.subrange(16, 32));
    }
    assert(a =~= a.subrange(0, 16) + a.subrange(16, 32));
    assert(b =~= b.subrange(0, 16) + b.subrange(16, 32));
}

/// Decoding the little-endian bytes of a value gives the value back.
pub proof fn lemma_u256_le_round_trip(x: U256)
    ensures
        x.le_bytes().len() == 32,
        U256::from_le_seq(x.le_bytes()) == x,
{
    vstd::bytes::lemma_auto_spec_u128_to_from_le_bytes();
    let s = x.le_bytes();
    assert(s.subrange(0, 16) =~= vstd::bytes::spec_u128_to_le_bytes(x.lo));
    assert(s.subrange(16, 32) =~= vstd::bytes::spec_u128_to_le_bytes(x.hi));
}

/// The 256-bit integer with value `x`, for `x < 2^256`.
pub open spec fn u256_of(x: nat) -> U256 {
    U256 { lo: (x % two_pow_128()) as u128, hi: (x / two_pow_128()) as u128 }
}

/// A value's halves are its remainder and quotient by `2^128`.
pub proof fn lemma_u256_of_value(a: U256)
    ensures
        u256_of(a.value()) == a,
{
    vstd::arithmetic::div_mod::lemma_fundamental_div_mod_converse(
        a.value() as int,
        two_pow_128() as int,
        a.hi as int,
        a.lo as int,
    );
}

/// The 256-bit bitwise and: the and of each half.
pub open spec fn spec_bitand(a: U256, b: U256) -> U256 {
    U256 { lo: a.lo & b.lo, hi: a.hi & b.hi }
}

/// The 256-bit bitwise or: the or of each half.
pub open spec fn spec_bitor(a: U256, b: U256) -> U256 {
    U256 { lo: a.lo | b.lo, hi: a.hi | b.hi }
}

/// The 256-bit bitwise exclusive or: that of each half.
pub open spec fn spec_bitxor(a: U256, b: U256) -> U256 {
    U256 { lo: a.lo ^ b.lo, hi: a.hi ^ b.hi }
}

impl U256 {
    /// The value zero.
    pub fn zero() -> (r: U256)
        ensures
            r.value() == 0,
    {
        U256 { lo: 0, hi: 0 }
    }

    /// Widens a `u8`.
    pub fn from_u8(x: u8) -> (r: U256)
        ensures
            r.value() == x,
    {
        U256 { lo: x as u128, hi: 0 }
    }

    /// Widens a `u16`.
    pub fn from_u16(x: u16) -> (r: U256)
        ensures
            r.value() == x,
    {
        U256 { lo: x as u128, hi: 0 }
    }

    /// Widens a `u32`.
    pub fn from_u32(x: u32) -> (r: U256)
        ensures
            r.value() == x,
    {
        U256 { lo: x as u128, hi: 0 }
    }

    /// Widens a `u64`.
    pub fn from_u64(x: u64) -> (r: U256)
        ensures
            r.value() == x,
    {
        U256 { lo: x as u128, hi: 0 }
    }

    /// Widens a `u128`.
    pub fn from_u128(x: u128) -> (r: U256)
        ensures
            r.value() == x,
    {
        U256 { lo: x, hi: 0 }
    }

    /// Narrows to `u8`, or `None` when the value does not fit.
    pub fn try_into_u8(&self) -> (r: Option<u8>)
        ensures
            r matches Some(x) ==> x == self.value(),
            r is None <==> self.value() > u8::MAX,
    {
        if self.hi == 0 && self.lo <= 0xFF {
            Some(self.lo as u8)
        } else {
            None
        }
    }

    /// Narrows to `u16`, or `None` when the value does not fit.
    pub fn try_into_u16(&self) -> (r: Option<u16>)
        ensures
            r matches Some(x) ==> x == self.value(),
            r is None <==> self.value() > u16::MAX,
    {
        if self.hi == 0 && self.lo <= 0xFFFF {
            Some(self.lo as u16)
        } else {
            None
        }
    }

    /// Narrows to `u32`, or `None` when the value does not fit.
    pub fn try_into_u32(&self) -> (r: Option<u32>)
        ensures
            r matches Some(x) ==> x == self.value(),
            r is None <==> self.value() > u32::MAX,
    {
        if self.hi == 0 && self.lo <= 0xFFFF_FFFF {
            Some(self.lo as u32)
        } else {
            None
        }
    }

    /// Narrows to `u64`, or `None` when the value does not fit.
    pub fn try_into_u64(&self) -> (r: Option<u64>)
        ensures
            r matches Some(x) ==> x == self.value(),
            r is None <==> self.value() > u64::MAX,
    {
        if self.hi == 0 && self.lo <= 0xFFFF_FFFF_FFFF_FFFF {
            Some(self.lo as u64)
        } else {
            None
        }
    }

    /// Narrows to `u128`, or `None` when the value does not fit.
    pub fn try_into_u128(&self) -> (r: Option<u128>)
        ensures
            r matches Some(x) ==> x == self.value(),
            r is None <==> self.value() > u128::MAX,
    {
        if self.hi == 0 {
            Some(self.lo)
        } else {
            None
        }
    }

    /// `self < other` as values.
    pub fn lt(&self, other: &U256) -> (r: bool)
        ensures
            r == (self.value() < other.value()),
    {
        self.hi < other.hi || (self.hi == other.hi && self.lo < other.lo)
    }

    /// `self == other` as values.
    pub fn eq_value(&self, other: &U256) -> (r: bool)
        ensures
            r == (self.value() == other.value()),
            r == (*self == *other),
    {
        proof {
            if self.value() == other.value() {
                lemma_value_unique(*self, *other);
            }
        }
        self.hi == other.hi && self.lo == other.lo
    }

    /// The sum, or `None` when it is `2^256` or more.
    pub fn checked_add(&self, other: &U256) -> (r: Option<U256>)
        ensures
            r is None <==> self.value() + other.value() >= two_pow_256(),
            r matches Some(s) ==> s.value() == self.value() + other.value(),
    {
        let (lo, carry) = if self.lo <= u128::MAX - other.lo {
            (self.lo + other.lo, 0u128)
        } else {
            (self.lo - (u128::MAX - other.lo) - 1, 1u128)
        };
        if self.hi > u128::MAX - other.hi {
            return None;
        }
        let h = self.hi + other.hi;
        if h > u128::MAX - carry {
            return None;
        }
        Some(U256 { lo, hi: h + carry })
    }

    /// The difference, or `None` when `other` exceeds `self`.
    pub fn checked_sub(&self, other: &U256) -> (r: Option<U256>)
        ensures
            r is None <==> self.value() < other.value(),
            r matches Some(s) ==> s.value() == self.value() - other.value(),
    {
        let (lo, borrow) = if self.lo >= other.lo {
            (self.lo - other.lo, 0u128)
        } else {
            (u128::MAX - (other.lo - self.lo) + 1, 1u128)
        };
        if self.hi < other.hi {
            return None;
        }
        let h = self.hi - other.hi;
        if h < borrow {
            return None;
        }
        Some(U256 { lo, hi: h - borrow })
    }

    /// The full product of two `u128` values.
    fn mul_wide(x: u128, y: u128) -> (r: U256)
        ensures
            r.value() == x * y,
    {
        let m: u128 = 0x1_0000_0000_0000_0000;
        let x0 = x % m;
        let x1 = x / m;
        let y0 = y % m;
        let y1 = y / m;
        assert(x0 * y0 <= (m - 1) * (m - 1)) by (nonlinear_arith)
            requires x0 < m, y0 < m;
        assert(x0 * y1 <= (m - 1) * (m - 1)) by (nonlinear_arith)
            requires x0 < m, y1 < m;
        assert(x1 * y0 <= (m - 1) * (m - 1)) by (nonlinear_arith)
            requires x1 < m, y0 < m;
        assert(x1 * y1 <= (m - 1) * (m - 1)) by (nonlinear_arith)
            requires x1 < m, y1 < m;
        let p00 = x0 * y0;
        let p01 = x0 * y1;
        let p10 = x1 * y0;
        let p11 = x1 * y1;
        // mid = p01 + p10 = mid_carry * 2^128 + mid_val
        let (mid_val, mid_carry) = if p01 <= u128::MAX - p10 {
            (p01 + p10, 0u128)
        } else {
            (p01 - (u128::MAX - p10) - 1, 1u128)
        };
        let mid_lo = mid_val % m;
        let mid_hi = mid_val / m;
        // lo = p00 + mid_lo * 2^64, with carry c1
        assert(mid_lo * m <= (m - 1) * m) by (nonlinear_arith)
            requires mid_lo < m;
        let shifted = mid_lo * m;
        let (lo, c1) = if p00 <= u128::MAX - shifted {
            (p00 + shifted, 0u128)
        } else {
            (p00 - (u128::MAX - shifted) - 1, 1u128)
        };
        proof {
            assert(x == x1 * m + x0);
            assert(y == y1 * m + y0);
            assert(x * y == p11 * (m * m) + (p01 + p10) * m + p00) by (nonlinear_arith)
                requires
                    x == x1 * m + x0,
                    y == y1 * m + y0,
                    p00 == x0 * y0,
                    p01 == x0 * y1,
                    p10 == x1 * y0,
                    p11 == x1 * y1,
            ;
            assert(mid_val == mid_hi * m + mid_lo);
            assert((p01 + p10) * m == mid_carry * (m * m * m) + mid_hi * (m * m) + mid_lo * m)
                by (nonlinear_arith)
                requires
                    p01 + p10 == mid_carry * (m * m) + mid_val,
                    mid_val == mid_hi * m + mid_lo,
            ;
            assert(x * y < m * m * m * m) by (nonlinear_arith)
                requires x < m * m, y < m * m, x >= 0, y >= 0;
            assert(p11 + mid_hi + mid_carry * m + c1 <= u128::MAX) by (nonlinear_arith)
                requires
                    x * y == p11 * (m * m) + mid_carry * (m * m * m) + mid_hi * (m * m) + mid_lo
                        * m + p00,
                    p00 + mid_lo * m == c1 * (m * m) + lo,
                    x * y < m * m * m * m,
                    lo >= 0,
                    m == 0x1_0000_0000_0000_0000,
            ;
        }
        let hi = p11 + mid_hi + mid_carry * m + c1;
        proof {
            assert((hi as nat) * two_pow_128() + lo == x * y) by (nonlinear_arith)
                requires
                    x * y == p11 * (m * m) + mid_carry * (m * m * m) + mid_hi * (m * m) + mid_lo
                        * m + p00,
                    p00 + mid_lo * m == c1 * (m * m) + lo,
                    hi == p11 + mid_hi + mid_carry * m + c1,
                    two_pow_128() == m * m,
            ;
        }
        U256 { lo, hi }
    }

    /// The product, or `None` when it is `2^256` or more.
    pub fn checked_mul(&self, other: &U256) -> (r: Option<U256>)
        ensures
            r is None <==> self.value() * other.value() >= two_pow_256(),
            r matches Some(s) ==> s.value() == self.value() * other.value(),
    {
        let a = *self;
        let b = *other;
        let ghost p = two_pow_128();
        proof {
            lemma_value_bound(a);
            lemma_value_bound(b);
        }
        if a.hi != 0 && b.hi != 0 {
            proof {
                assert(a.value() * b.value() >= two_pow_256()) by (nonlinear_arith)
                    requires
                        a.value() >= p,
                        b.value() >= p,
                        two_pow_256() == p * p,
                {
                }
            }
            return None;
        }
        let ll = Self::mul_wide(a.lo, b.lo);
        let cross = if a.hi != 0 {
            Self::mul_wide(a.hi, b.lo)
        } else if b.hi != 0 {
            Self::mul_wide(a.lo, b.hi)
        } else {
            Self::zero()
        };
        proof {
            assert(a.value() * b.value() == cross.value() * p + ll.value()) by (nonlinear_arith)
                requires
                    a.value() == a.hi * p + a.lo,
                    b.value() == b.hi * p + b.lo,
                    a.hi == 0 || b.hi == 0,
                    ll.value() == a.lo * b.lo,
                    a.hi != 0 ==> cross.value() == a.hi * b.lo,
                    a.hi == 0 && b.hi != 0 ==> cross.value() == a.lo * b.hi,
                    a.hi == 0 && b.hi == 0 ==> cross.value() == 0,
            ;
        }
        if cross.hi != 0 {
            proof {
                assert(a.value() * b.value() >= two_pow_256()) by (nonlinear_arith)
                    requires
                        a.value() * b.value() == cross.value() * p + ll.value(),
                        cross.value() >= p,
                        ll.value() >= 0,
                        two_pow_256() == p * p,
                ;
            }
            return None;
        }
        if ll.hi > u128::MAX - cross.lo {
            proof {
                assert(a.value() * b.value() >= two_pow_256()) by (nonlinear_arith)
                    requires
                        a.value() * b.value() == cross.value() * p + ll.value(),
                        cross.value() == cross.lo,
                        ll.value() == ll.hi * p + ll.lo,
                        ll.hi + cross.lo >= p,
                        ll.lo >= 0,
                        two_pow_256() == p * p,
                ;
            }
            return None;
        }
        proof {
            assert(a.value() * b.value() == (ll.hi + cross.lo) * p + ll.lo) by (nonlinear_arith)
                requires
                    a.value() * b.value() == cross.value() * p + ll.value(),
                    cross.value() == cross.lo,
                    ll.value() == ll.hi * p + ll.lo,
            ;
        }
        Some(U256 { lo: ll.lo, hi: ll.hi + cross.lo })
    }

    /// Twice the value, taken modulo `2^256`.
    fn double_wrapping(&self) -> (r: U256)
        ensures
            r.value() == (2 * self.value()) % two_pow_256(),
    {
        let half: u128 = 0x8000_0000_0000_0000_0000_0000_0000_0000;
        let carry: u128 = if self.lo >= half { 1 } else { 0 };
        let lo = if self.lo >= half { (self.lo - half) * 2 } else { self.lo * 2 };
        let top = self.hi >= half;
        let hi = if top { (self.hi - half) * 2 + carry } else { self.hi * 2 + carry };
        proof {
            let p = two_pow_128();
            let t: int = if top { 1 } else { 0 };
            assert(2 * self.value() == (hi as nat) * p + lo + t * two_pow_256()) by (nonlinear_arith)
                requires
                    self.value() == self.hi * p + self.lo,
                    2 * self.lo == carry * p + lo,
                    2 * self.hi + carry == hi + t * p,
                    two_pow_256() == p * p,
            ;
            lemma_value_bound(U256 { lo, hi });
            vstd::arithmetic::div_mod::lemma_fundamental_div_mod_converse(
                (2 * self.value()) as int,
                two_pow_256() as int,
                t,
                (U256 { lo, hi }).value() as int,
            );
        }
        U256 { lo, hi }
    }

    /// Half the value, rounded down.
    fn halve(&self) -> (r: U256)
        ensures
            r.value() == self.value() / 2,
    {
        let half: u128 = 0x8000_0000_0000_0000_0000_0000_0000_0000;
        let lo = self.lo / 2 + (self.hi % 2) * half;
        let hi = self.hi / 2;
        proof {
            let p = two_pow_128();
            assert(self.value() == 2 * ((hi as nat) * p + lo) + self.lo % 2) by (nonlinear_arith)
                requires
                    self.value() == self.hi * p + self.lo,
                    self.lo == 2 * (self.lo / 2) + self.lo % 2,
                    self.hi == 2 * hi + self.hi % 2,
                    lo == self.lo / 2 + (self.hi % 2) * half,
                    p == 2 * half,
            ;
            vstd::arithmetic::div_mod::lemma_fundamental_div_mod_converse(
                self.value() as int,
                2,
                (U256 { lo, hi }).value() as int,
                (self.lo % 2) as int,
            );
        }
        U256 { lo, hi }
    }

    /// Shifts left by `n` bits, dropping bits past the 256th.
    pub fn shl(&self, n: u8) -> (r: U256)
        ensures
            r.value() == (self.value() * pow2(n as nat)) % two_pow_256(),
    {
        let mut r = *self;
        let mut i: u8 = 0;
        proof {
            lemma_value_bound(*self);
            lemma_pow2_big();
            vstd::arithmetic::div_mod::lemma_small_mod(self.value(), two_pow_256());
            assert(pow2(0) == 1);
            assert(self.value() * pow2(0) == self.value());
        }
        while i < n
            invariant
                i <= n,
                r.value() == (self.value() * pow2(i as nat)) % two_pow_256(),
            decreases n - i,
        {
            let ghost before = r.value();
            r = r.double_wrapping();
            proof {
                let v = self.value() as int;
                let m = two_pow_256() as int;
                let pi = pow2(i as nat) as int;
                vstd::arithmetic::div_mod::lemma_mul_mod_noop_right(2, v * pi, m);
                assert(2 * (v * pi) == v * pow2((i + 1) as nat)) by (nonlinear_arith)
                    requires
                        pow2((i + 1) as nat) == 2 * pi,
                ;
            }
            i = i + 1;
        }
        r
    }

    /// Shifts right by `n` bits.
    pub fn shr(&self, n: u8) -> (r: U256)
        ensures
            r.value() == self.value() / pow2(n as nat),
    {
        let mut r = *self;
        let mut i: u8 = 0;
        proof {
            assert(pow2(0) == 1);
        }
        while i < n
            invariant
                i <= n,
                r.value() == self.value() / pow2(i as nat),
            decreases n - i,
        {
            r = r.halve();
            proof {
                lemma_pow2_positive(i as nat);
                vstd::arithmetic::div_mod::lemma_div_denominator(
                    self.value() as int,
                    pow2(i as nat) as int,
                    2,
                );
                assert(pow2((i + 1) as nat) == pow2(i as nat) * 2);
            }
            i = i + 1;
        }
        r
    }

    /// Bitwise and.
    pub fn bitand(&self, other: &U256) -> (r: U256)
        ensures
            r == spec_bitand(*self, *other),
    {
        U256 { lo: self.lo & other.lo, hi: self.hi & other.hi }
    }

    /// Bitwise or.
    pub fn bitor(&self, other: &U256) -> (r: U256)
        ensures
            r == spec_bitor(*self, *other),
    {
        U256 { lo: self.lo | other.lo, hi: self.hi | other.hi }
    }

    /// Bitwise exclusive or.
    pub fn bitxor(&self, other: &U256) -> (r: U256)
        ensures
            r == spec_bitxor(*self, *other),
    {
        U256 { lo: self.lo ^ other.lo, hi: self.hi ^ other.hi }
    }

    /// Twice the value, which must stay below `2^256`.
    fn double(&self) -> (r: U256)
        requires
            2 * self.value() < two_pow_256(),
        ensures
            r.value() == 2 * self.value(),
    {
        let r = self.double_wrapping();
        proof {
            vstd::arithmetic::div_mod::lemma_small_mod((2 * self.value()) as nat, two_pow_256());
        }
        r
    }

    /// Quotient and remainder of the division by a non-zero divisor,
    /// by binary long division from the most significant bit down.
    fn div_rem(&self, d: &U256) -> (r: (U256, U256))
        requires
            d.value() > 0,
        ensures
            r.0.value() == self.value() / d.value(),
            r.1.value() == self.value() % d.value(),
    {
        let ghost v = self.value() as int;
        let ghost dv = d.value() as int;
        proof {
            lemma_value_bound(*self);
            lemma_pow2_big();
        }
        // The bits of the dividend, least significant first.
        let mut bits: Vec<bool> = Vec::new();
        let mut cur = *self;
        let mut i: u32 = 0;
        proof {
            assert(pow2(0) == 1);
        }
        while i < 256
            invariant
                i <= 256,
                bits@.len() == i,
                cur.value() == v / (pow2(i as nat) as int),
                v == self.value(),
                forall|k: int| 0 <= k < i ==> #[trigger] bits@[k] == ((v / (pow2(k as nat) as int)) % 2 == 1),
            decreases 256 - i,
        {
            bits.push(cur.lo % 2 == 1);
            proof {
                assert(cur.value() % 2 == cur.lo % 2) by (nonlinear_arith)
                    requires
                        cur.value() == cur.hi * two_pow_128() + cur.lo,
                        two_pow_128() == 2 * 0x8000_0000_0000_0000_0000_0000_0000_0000,
                ;
                lemma_pow2_positive(i as nat);
                vstd::arithmetic::div_mod::lemma_div_denominator(v, pow2(i as nat) as int, 2);
                assert(pow2((i + 1) as nat) == pow2(i as nat) * 2);
            }
            cur = cur.halve();
            i = i + 1;
        }
        let mut q = Self::zero();
        let mut rem = Self::zero();
        let mut j: u32 = 256;
        proof {
            vstd::arithmetic::div_mod::lemma_basic_div(v, pow2(256) as int);
        }
        while j > 0
            invariant
                j <= 256,
                bits@.len() == 256,
                v == self.value(),
                dv == d.value(),
                dv > 0,
                0 <= v < two_pow_256(),
                forall|k: int| 0 <= k < 256 ==> #[trigger] bits@[k] == ((v / (pow2(k as nat) as int)) % 2 == 1),
                q.value() * dv + rem.value() == v / (pow2(j as nat) as int),
                rem.value() < dv,
            decreases j,
        {
            j = j - 1;
            let bit = bits[j as usize];
            let ghost prefix = v / (pow2(j as nat) as int);
            let ghost prev = v / (pow2((j + 1) as nat) as int);
            proof {
                lemma_pow2_positive(j as nat);
                vstd::arithmetic::div_mod::lemma_div_denominator(v, pow2(j as nat) as int, 2);
                assert(pow2((j + 1) as nat) == pow2(j as nat) * 2);
                assert(prefix == 2 * prev + prefix % 2);
                assert(prefix % 2 == if bit { 1int } else { 0int });
                lemma_pow2_positive(j as nat);
                vstd::arithmetic::div_mod::lemma_div_is_ordered_by_denominator(v, 1, pow2(j as nat) as int);
                assert(prefix <= v);
            }
            // gap = d - rem - bit, at least zero because rem < d.
            let gap0 = d.checked_sub(&rem).unwrap();
            let gap = if bit { gap0.checked_sub(&Self::from_u8(1)).unwrap() } else { gap0 };
            let ghost b: int = if bit { 1 } else { 0 };
            if !rem.lt(&gap) {
                // 2 * rem + bit >= d: the quotient bit is 1.
                let new_rem = rem.checked_sub(&gap).unwrap();
                proof {
                    assert((2 * q.value() + 1) * dv + new_rem.value() == prefix) by (nonlinear_arith)
                        requires
                            q.value() * dv + rem.value() == prev,
                            prefix == 2 * prev + b,
                            new_rem.value() == 2 * rem.value() + b - dv,
                    ;
                    assert(2 * q.value() + 1 <= prefix) by (nonlinear_arith)
                        requires
                            (2 * q.value() + 1) * dv + new_rem.value() == prefix,
                            dv >= 1,
                            new_rem.value() >= 0,
                            q.value() >= 0,
                    {
                        assert((2 * q.value() + 1) * dv >= 2 * q.value() + 1);
                    }
                }
                let doubled = q.double();
                q = doubled.checked_add(&Self::from_u8(1)).unwrap();
                rem = new_rem;
            } else {
                // 2 * rem + bit < d: the quotient bit is 0.
                let twice = rem.checked_add(&rem).unwrap();
                let new_rem = if bit { twice.checked_add(&Self::from_u8(1)).unwrap() } else { twice };
                proof {
                    assert((2 * q.value()) * dv + new_rem.value() == prefix) by (nonlinear_arith)
                        requires
                            q.value() * dv + rem.value() == prev,
                            prefix == 2 * prev + b,
                            new_rem.value() == 2 * rem.value() + b,
                    ;
                    assert(2 * q.value() <= prefix) by (nonlinear_arith)
                        requires
                            (2 * q.value()) * dv + new_rem.value() == prefix,
                            dv >= 1,
                            new_rem.value() >= 0,
                            q.value() >= 0,
                    {
                        assert((2 * q.value()) * dv >= 2 * q.value());
                    }
                }
                q = q.double();
                rem = new_rem;
            }
        }
        proof {
            assert(pow2(0) == 1);
            vstd::arithmetic::div_mod::lemma_fundamental_div_mod_converse(v, dv, q.value() as int, rem.value() as int);
        }
        (q, rem)
    }

    /// The quotient, or `None` for a zero divisor.
    pub fn checked_div(&self, other: &U256) -> (r: Option<U256>)
        ensures
            r is None <==> other.value() == 0,
            r matches Some(q) ==> q.value() == self.value() / other.value(),
    {
        if other.hi == 0 && other.lo == 0 {
            None
        } else {
            Some(self.div_rem(other).0)
        }
    }

    /// The remainder, or `None` for a zero divisor.
    pub fn checked_rem(&self, other: &U256) -> (r: Option<U256>)
        ensures
            r is None <==> other.value() == 0,
            r matches Some(m) ==> m.value() == self.value() % other.value(),
    {
        if other.hi == 0 && other.lo == 0 {
            None
        } else {
            Some(self.div_rem(other).1)
        }
    }
}

} // verus!
