//! Integer operators for the 32- and 64-bit lanes.
//!
//! Every operator is defined on unsigned bit patterns; signed variants
//! interpret their operands in two's complement.  The contracts speak the
//! mathematical language: `as_signed` and `to_unsigned` move between a bit
//! pattern and the integer it denotes, `trunc_div` / `trunc_rem` are
//! division truncating towards zero, and counting operators are defined by
//! recursion over the bits.

use vstd::prelude::*;

use vstd::arithmetic::div_mod::{
    lemma_fundamental_div_mod,
    lemma_mod_multiples_vanish,
    lemma_small_mod,
};
use vstd::arithmetic::mul::{lemma_mul_inequality, lemma_mul_is_associative};
use vstd::arithmetic::power2::{
    lemma2_to64,
    lemma2_to64_rest,
    lemma_pow2_adds,
    lemma_pow2_pos,
    lemma_pow2_strictly_increases,
    pow2,
};
use vstd::bits::{lemma_u32_shr_is_div, lemma_u64_shl_is_mul, lemma_u64_shr_is_div};
use vstd::math::abs;

verus! {

/// The signed reading of a `w`-bit pattern `v` (two's complement).
pub open spec fn as_signed(v: int, w: nat) -> int {
    if v < pow2((w - 1) as nat) {
        v
    } else {
        v - pow2(w)
    }
}

/// The `w`-bit pattern denoting the integer `n`, as a non-negative value:
/// `n` reduced modulo `2^w`.
pub open spec fn to_unsigned(n: int, w: nat) -> int {
    n % (pow2(w) as int)
}

/// Division truncating towards zero, as the signed division instructions
/// require it.
pub open spec fn trunc_div(a: int, b: int) -> int {
    if (a < 0) == (b < 0) {
        abs(a) as int / abs(b) as int
    } else {
        -(abs(a) as int / abs(b) as int)
    }
}

/// The remainder of truncating division; its sign follows the dividend.
pub open spec fn trunc_rem(a: int, b: int) -> int {
    a - b * trunc_div(a, b)
}

/// The number of leading zero bits of the `w`-bit value `v`.
pub open spec fn clz_rec(v: int, w: nat) -> nat
    decreases w,
{
    if w == 0 {
        0
    } else if v >= pow2((w - 1) as nat) {
        0
    } else {
        1 + clz_rec(v, (w - 1) as nat)
    }
}

/// The number of trailing zero bits of the `w`-bit value `v`; `w` for
/// zero.
pub open spec fn ctz_rec(v: int, w: nat) -> nat
    decreases w,
{
    if w == 0 {
        0
    } else if v % 2 == 1 {
        0
    } else {
        1 + ctz_rec(v / 2, (w - 1) as nat)
    }
}

/// The number of one bits of `v`.
pub open spec fn popcnt_rec(v: nat) -> nat
    decreases v,
{
    if v == 0 {
        0
    } else {
        (v % 2) + popcnt_rec(v / 2)
    }
}

/// Left shift of a `w`-bit value: multiplication by `2^(k mod w)`, reduced
/// modulo `2^w`.
pub open spec fn shl_w(v: int, k: int, w: nat) -> int {
    to_unsigned(v * pow2((k % (w as int)) as nat), w)
}

/// Logical right shift of a `w`-bit value: division by `2^(k mod w)`.
pub open spec fn shr_u_w(v: int, k: int, w: nat) -> int {
    v / (pow2((k % (w as int)) as nat) as int)
}

/// Arithmetic (sign-preserving) right shift of a `w`-bit value: floor
/// division of the signed reading by `2^(k mod w)`, as a bit pattern.
pub open spec fn shr_s_w(v: int, k: int, w: nat) -> int {
    to_unsigned(as_signed(v, w) / (pow2((k % (w as int)) as nat) as int), w)
}

/// An integer type the interpreter's numeric lanes support, together with
/// its signed counterpart.
pub trait SupportedInteger<Signed>: Sized + Copy {
    /// The unsigned integer the bit pattern denotes.
    spec fn as_int(self) -> int;

    /// The bit width.
    spec fn wid() -> nat;

    /// The integer a value of the signed counterpart denotes.
    spec fn sig_int(v: Signed) -> int;

    /// The bit formula for rotate-left.
    spec fn rotl_spec(self, k: Self) -> Self;

    /// The bit formula for rotate-right.
    spec fn rotr_spec(self, k: Self) -> Self;

    fn zero() -> (r: Self)
        ensures
            r.as_int() == 0,
    ;

    fn one() -> (r: Self)
        ensures
            r.as_int() == 1,
    ;

    fn len() -> (r: Self)
        ensures
            r.as_int() == Self::wid() as int,
    ;

    fn max_value() -> (r: Self)
        ensures
            r.as_int() == pow2(Self::wid()) - 1,
    ;

    fn to_signed(self) -> (r: Signed)
        ensures
            Self::sig_int(r) == as_signed(self.as_int(), Self::wid()),
    ;

    fn from_signed(val: Signed) -> (r: Self)
        requires
            -(pow2((Self::wid() - 1) as nat) as int) <= Self::sig_int(val)
                < pow2((Self::wid() - 1) as nat),
        ensures
            r.as_int() == to_unsigned(Self::sig_int(val), Self::wid()),
    ;

    fn clz(self) -> (r: Self)
        ensures
            r.as_int() == clz_rec(self.as_int(), Self::wid()) as int,
    ;

    fn ctz(self) -> (r: Self)
        ensures
            r.as_int() == ctz_rec(self.as_int(), Self::wid()) as int,
    ;

    fn popcnt(self) -> (r: Self)
        ensures
            r.as_int() == popcnt_rec(self.as_int() as nat) as int,
    ;

    fn eqz(self) -> (r: bool)
        ensures
            r == (self.as_int() == 0),
    ;

    fn eq_(v1: Self, v2: Self) -> (r: bool)
        ensures
            r == (v1.as_int() == v2.as_int()),
    ;

    fn ne_(v1: Self, v2: Self) -> (r: bool)
        ensures
            r == (v1.as_int() != v2.as_int()),
    ;

    fn ltu(v1: Self, v2: Self) -> (r: bool)
        ensures
            r == (v1.as_int() < v2.as_int()),
    ;

    fn lts(v1: Self, v2: Self) -> (r: bool)
        ensures
            r == (as_signed(v1.as_int(), Self::wid()) < as_signed(v2.as_int(), Self::wid())),
    ;

    fn gtu(v1: Self, v2: Self) -> (r: bool)
        ensures
            r == (v1.as_int() > v2.as_int()),
    ;

    fn gts(v1: Self, v2: Self) -> (r: bool)
        ensures
            r == (as_signed(v1.as_int(), Self::wid()) > as_signed(v2.as_int(), Self::wid())),
    ;

    fn leu(v1: Self, v2: Self) -> (r: bool)
        ensures
            r == (v1.as_int() <= v2.as_int()),
    ;

    fn les(v1: Self, v2: Self) -> (r: bool)
        ensures
            r == (as_signed(v1.as_int(), Self::wid()) <= as_signed(v2.as_int(), Self::wid())),
    ;

    fn geu(v1: Self, v2: Self) -> (r: bool)
        ensures
            r == (v1.as_int() >= v2.as_int()),
    ;

    fn ges(v1: Self, v2: Self) -> (r: bool)
        ensures
            r == (as_signed(v1.as_int(), Self::wid()) >= as_signed(v2.as_int(), Self::wid())),
    ;

    /// Signed division truncating towards zero.  Division by zero and the
    /// overflowing `min_signed / -1` are left out; the instruction
    /// dispatcher traps on them before calling.
    fn div_s(v1: Self, v2: Self) -> (r: Self)
        requires
            as_signed(v2.as_int(), Self::wid()) != 0,
            !(as_signed(v1.as_int(), Self::wid()) == -(pow2((Self::wid() - 1) as nat) as int)
                && as_signed(v2.as_int(), Self::wid()) == -1),
        ensures
            r.as_int() == to_unsigned(
                trunc_div(as_signed(v1.as_int(), Self::wid()), as_signed(v2.as_int(), Self::wid())),
                Self::wid(),
            ),
    ;

    /// Signed remainder; its sign follows the dividend.  Division by zero
    /// is left out; the instruction dispatcher traps on it before calling.
    fn rem_s(v1: Self, v2: Self) -> (r: Self)
        requires
            as_signed(v2.as_int(), Self::wid()) != 0,
        ensures
            r.as_int() == to_unsigned(
                trunc_rem(as_signed(v1.as_int(), Self::wid()), as_signed(v2.as_int(), Self::wid())),
                Self::wid(),
            ),
    ;

    fn shl(v1: Self, v2: Self) -> (r: Self)
        ensures
            r.as_int() == shl_w(v1.as_int(), v2.as_int(), Self::wid()),
    ;

    fn shr_u(v1: Self, v2: Self) -> (r: Self)
        ensures
            r.as_int() == shr_u_w(v1.as_int(), v2.as_int(), Self::wid()),
    ;

    fn shr_s(v1: Self, v2: Self) -> (r: Self)
        ensures
            r.as_int() == shr_s_w(v1.as_int(), v2.as_int(), Self::wid()),
    ;

    fn rotl(v1: Self, v2: Self) -> (r: Self)
        ensures
            r == v1.rotl_spec(v2),
    ;

    fn rotr(v1: Self, v2: Self) -> (r: Self)
        ensures
            r == v1.rotr_spec(v2),
    ;
}

// Facts about the recursive bit-counting specifications.

/// Counting leading zeros of zero exhausts the width.
pub proof fn lemma_clz_zero(w: nat)
    ensures
        clz_rec(0, w) == w,
    decreases w,
{
    if w > 0 {
        lemma_pow2_pos((w - 1) as nat);
        lemma_clz_zero((w - 1) as nat);
    }
}

/// Counting trailing zeros of zero exhausts the width.
pub proof fn lemma_ctz_zero(w: nat)
    ensures
        ctz_rec(0, w) == w,
    decreases w,
{
    if w > 0 {
        lemma_ctz_zero((w - 1) as nat);
    }
}

/// The leading-zero count never exceeds the width.
pub proof fn lemma_clz_le(v: int, w: nat)
    ensures
        clz_rec(v, w) <= w,
    decreases w,
{
    if w > 0 && v < pow2((w - 1) as nat) {
        lemma_clz_le(v, (w - 1) as nat);
    }
}

/// The trailing-zero count never exceeds the width.
pub proof fn lemma_ctz_le(v: int, w: nat)
    ensures
        ctz_rec(v, w) <= w,
    decreases w,
{
    if w > 0 && v % 2 != 1 {
        lemma_ctz_le(v / 2, (w - 1) as nat);
    }
}

/// Doubling a value strictly below the top bit loses exactly one leading
/// zero.
pub proof fn lemma_clz_double(v: int, w: nat)
    requires
        1 <= v,
        1 <= w,
        v < pow2((w - 1) as nat),
    ensures
        clz_rec(2 * v, w) == clz_rec(v, w) - 1,
    decreases w,
{
    lemma2_to64();
    if w == 1 {
        assert(false);
    } else {
        lemma_pow2_adds((w - 2) as nat, 1);
        assert(pow2((w - 1) as nat) == pow2((w - 2) as nat) * 2);
        if v >= pow2((w - 2) as nat) {
            assert(2 * v >= pow2((w - 1) as nat));
            assert(clz_rec(2 * v, w) == 0);
            assert(clz_rec(v, (w - 1) as nat) == 0);
            assert(clz_rec(v, w) == 1);
        } else {
            assert(2 * v < pow2((w - 1) as nat));
            lemma_clz_double(v, (w - 1) as nat);
            assert(clz_rec(2 * v, w) == 1 + clz_rec(2 * v, (w - 1) as nat));
            assert(clz_rec(v, w) == 1 + clz_rec(v, (w - 1) as nat));
        }
    }
}

/// The one-bit count never exceeds the width that bounds the value.
pub proof fn lemma_popcnt_le(v: nat, w: nat)
    requires
        v < pow2(w),
    ensures
        popcnt_rec(v) <= w,
    decreases w,
{
    lemma2_to64();
    if w == 0 {
        assert(v == 0);
    } else if v > 0 {
        lemma_pow2_adds((w - 1) as nat, 1);
        assert(v / 2 < pow2((w - 1) as nat));
        lemma_popcnt_le(v / 2, (w - 1) as nat);
    }
}

/// Law: the leading zeros and the one bits of a `w`-bit value together
/// never exceed `w`.
pub proof fn lemma_clz_popcnt_le_width(v: int, w: nat)
    requires
        0 <= v < pow2(w),
    ensures
        clz_rec(v, w) + popcnt_rec(v as nat) <= w,
    decreases w,
{
    if w == 0 {
        lemma2_to64();
    } else if v >= pow2((w - 1) as nat) {
        lemma_popcnt_le(v as nat, w);
    } else {
        lemma_clz_popcnt_le_width(v, (w - 1) as nat);
    }
}

/// Law: shift amounts are read modulo the width, so reducing the amount
/// first changes nothing.
pub proof fn lemma_shift_masks(v: int, k: int, w: nat)
    requires
        1 <= w,
    ensures
        shl_w(v, k, w) == shl_w(v, k % (w as int), w),
        shr_u_w(v, k, w) == shr_u_w(v, k % (w as int), w),
        shr_s_w(v, k, w) == shr_s_w(v, k % (w as int), w),
{
    lemma_small_mod((k % (w as int)) as nat, w);
}

/// Law: wrapping addition is addition modulo `2^w`.
pub proof fn lemma_u32_add_wraps(a: u32, b: u32)
    ensures
        vstd::wrapping::u32_specs::wrapping_add(a, b) as int == to_unsigned(a + b, 32),
{
    lemma2_to64_rest();
    lemma2_to64();
    if a + b > u32::MAX {
        lemma_mod_multiples_vanish(-1, a + b - pow2(32), pow2(32) as int);
        lemma_small_mod((a + b - pow2(32)) as nat, pow2(32));
    } else {
        lemma_small_mod((a + b) as nat, pow2(32));
    }
}

/// Law: wrapping subtraction is subtraction modulo `2^w`.
pub proof fn lemma_u32_sub_wraps(a: u32, b: u32)
    ensures
        vstd::wrapping::u32_specs::wrapping_sub(a, b) as int == to_unsigned(a - b, 32),
{
    lemma2_to64_rest();
    lemma2_to64();
    if a < b {
        lemma_mod_multiples_vanish(1, a - b, pow2(32) as int);
        lemma_small_mod((a - b + pow2(32)) as nat, pow2(32));
    } else {
        lemma_small_mod((a - b) as nat, pow2(32));
    }
}

/// Law: wrapping multiplication is multiplication modulo `2^w`.
pub proof fn lemma_u32_mul_wraps(a: u32, b: u32)
    ensures
        vstd::wrapping::u32_specs::wrapping_mul(a, b) as int == to_unsigned(a * b, 32),
{
    lemma2_to64_rest();
    lemma2_to64();
    vstd::arithmetic::mul::lemma_mul_nonnegative(a as int, b as int);
}

/// Law: wrapping addition is addition modulo `2^w`, 64-bit lane.
pub proof fn lemma_u64_add_wraps(a: u64, b: u64)
    ensures
        vstd::wrapping::u64_specs::wrapping_add(a, b) as int == to_unsigned(a + b, 64),
{
    lemma2_to64_rest();
    lemma2_to64();
    if a + b > u64::MAX {
        lemma_mod_multiples_vanish(-1, a + b - pow2(64), pow2(64) as int);
        lemma_small_mod((a + b - pow2(64)) as nat, pow2(64));
    } else {
        lemma_small_mod((a + b) as nat, pow2(64));
    }
}

/// Law: wrapping subtraction is subtraction modulo `2^w`, 64-bit lane.
pub proof fn lemma_u64_sub_wraps(a: u64, b: u64)
    ensures
        vstd::wrapping::u64_specs::wrapping_sub(a, b) as int == to_unsigned(a - b, 64),
{
    lemma2_to64_rest();
    lemma2_to64();
    if a < b {
        lemma_mod_multiples_vanish(1, a - b, pow2(64) as int);
        lemma_small_mod((a - b + pow2(64)) as nat, pow2(64));
    } else {
        lemma_small_mod((a - b) as nat, pow2(64));
    }
}

/// Law: wrapping multiplication is multiplication modulo `2^w`, 64-bit
/// lane.
pub proof fn lemma_u64_mul_wraps(a: u64, b: u64)
    ensures
        vstd::wrapping::u64_specs::wrapping_mul(a, b) as int == to_unsigned(a * b, 64),
{
    lemma2_to64_rest();
    lemma2_to64();
    vstd::arithmetic::mul::lemma_mul_nonnegative(a as int, b as int);
}

// Division helpers shared by the signed operators of both widths.

/// Floor division of a negated numerator, written with a ceiling on the
/// positive side.
proof fn lemma_neg_div(m: int, p: int)
    requires
        1 <= m,
        1 <= p,
    ensures
        (-m) / p == -((m + p - 1) / p),
{
    let q1 = (-m) / p;
    let r1 = (-m) % p;
    let q2 = (m + p - 1) / p;
    let r2 = (m + p - 1) % p;
    lemma_fundamental_div_mod(-m, p);
    lemma_fundamental_div_mod(m + p - 1, p);
    assert(q1 + q2 == 0) by (nonlinear_arith)
        requires
            1 <= p,
            p * q1 + r1 == -m,
            p * q2 + r2 == m + p - 1,
            0 <= r1 < p,
            0 <= r2 < p,
    ;
}

/// Keeping only the bits that survive a left shift, then shifting, is the
/// shift reduced modulo `2^w`.
proof fn lemma_shl_in_width(v: int, n: nat, w: nat)
    requires
        1 <= n < w,
        0 <= v < pow2(w),
    ensures
        0 <= (v % (pow2((w - n) as nat) as int)) * pow2(n) < pow2(w),
        (v % (pow2((w - n) as nat) as int)) * pow2(n) == to_unsigned(v * pow2(n), w),
{
    let wn = (w - n) as nat;
    lemma_pow2_pos(wn);
    lemma_pow2_pos(n);
    lemma_pow2_adds(wn, n);
    let d = v / (pow2(wn) as int);
    let b = v % (pow2(wn) as int);
    lemma_fundamental_div_mod(v, pow2(wn) as int);
    assert(v * pow2(n) == d * pow2(w) + b * pow2(n)) by (nonlinear_arith)
        requires
            v == pow2(wn) * d + b,
            pow2(wn) * pow2(n) == pow2(w),
    ;
    assert(0 <= b * pow2(n) < pow2(w)) by (nonlinear_arith)
        requires
            0 <= b < pow2(wn),
            pow2(wn) * pow2(n) == pow2(w),
            pow2(n) > 0,
    ;
    lemma_mod_multiples_vanish(d, b * pow2(n), pow2(w) as int);
    lemma_small_mod((b * pow2(n)) as nat, pow2(w));
}

/// The ceiling `(m + p - 1) / p` lies between 1 and `m`.
proof fn lemma_ceil_bounds(m: int, p: int)
    requires
        1 <= m,
        1 <= p,
    ensures
        1 <= (m + p - 1) / p <= m,
{
    let q = (m + p - 1) / p;
    let r = (m + p - 1) % p;
    lemma_fundamental_div_mod(m + p - 1, p);
    assert(1 <= q <= m) by (nonlinear_arith)
        requires
            1 <= m,
            1 <= p,
            p * q + r == m + p - 1,
            0 <= r < p,
    ;
}

impl SupportedInteger<i32> for u32 {
    open spec fn as_int(self) -> int {
        self as int
    }

    open spec fn wid() -> nat {
        32
    }

    open spec fn sig_int(v: i32) -> int {
        v as int
    }

    open spec fn rotl_spec(self, k: u32) -> u32 {
        (self << (k % 32)) | (self >> ((32 - (k % 32)) % 32))
    }

    open spec fn rotr_spec(self, k: u32) -> u32 {
        (self >> (k % 32)) | (self << ((32 - (k % 32)) % 32))
    }

    fn zero() -> u32 {
        0
    }

    fn one() -> u32 {
        1
    }

    fn len() -> u32 {
        32
    }

    fn max_value() -> (r: u32)
        ensures
            r as int == pow2(32) - 1,
    {
        proof {
            lemma2_to64();
        }
        u32::MAX
    }

    fn to_signed(self) -> (r: i32)
        ensures
            r as int == as_signed(self as int, 32),
    {
        proof {
            lemma2_to64();
            lemma2_to64_rest();
        }
        if self < 0x8000_0000 {
            self as i32
        } else {
            ((self as i64) - 0x1_0000_0000i64) as i32
        }
    }

    fn from_signed(val: i32) -> (r: u32)
        ensures
            r as int == to_unsigned(val as int, 32),
    {
        proof {
            lemma2_to64();
            lemma2_to64_rest();
            if val < 0 {
                lemma_mod_multiples_vanish(1, val as int, pow2(32) as int);
                lemma_small_mod((val + pow2(32)) as nat, pow2(32));
            } else {
                lemma_small_mod(val as nat, pow2(32));
            }
        }
        if val >= 0 {
            val as u32
        } else {
            ((val as i64) + 0x1_0000_0000i64) as u32
        }
    }

    fn clz(self) -> (r: u32)
        ensures
            r as int == clz_rec(self as int, 32) as int,
    {
        proof {
            lemma2_to64();
            lemma2_to64_rest();
            lemma_clz_le(self as int, 32);
        }
        if self == 0 {
            proof {
                lemma_clz_zero(32);
            }
            return 32;
        }
        let mut x: u32 = self;
        let mut count: u32 = 0;
        while x < 0x8000_0000
            invariant
                1 <= x,
                count + clz_rec(x as int, 32) == clz_rec(self as int, 32),
                clz_rec(self as int, 32) <= 32,
            decreases 32 - count,
        {
            proof {
                lemma2_to64();
                lemma_clz_double(x as int, 32);
                assert(clz_rec(x as int, 32) >= 1);
            }
            count = count + 1;
            x = x * 2;
        }
        proof {
            lemma2_to64();
            assert(clz_rec(x as int, 32) == 0);
        }
        count
    }

    fn ctz(self) -> (r: u32)
        ensures
            r as int == ctz_rec(self as int, 32) as int,
    {
        if self == 0 {
            proof {
                lemma_ctz_zero(32);
            }
            return 32;
        }
        let mut x: u32 = self;
        let mut count: u32 = 0;
        proof {
            lemma2_to64();
            lemma2_to64_rest();
        }
        while x % 2 == 0
            invariant
                1 <= x,
                count <= 31,
                count + ctz_rec(x as int, (32 - count) as nat) == ctz_rec(self as int, 32),
                self as int == x as int * pow2(count as nat),
            decreases x,
        {
            proof {
                lemma2_to64();
                lemma2_to64_rest();
                lemma_pow2_adds(count as nat, 1);
                assert(x as int == 2 * ((x as int) / 2));
                assert((x as int) * pow2(count as nat) == ((x as int) / 2) * pow2(
                    (count + 1) as nat,
                )) by (nonlinear_arith)
                    requires
                        x as int == 2 * ((x as int) / 2),
                        pow2((count + 1) as nat) == pow2(count as nat) * 2,
                ;
                if count == 31 {
                    assert(self as int >= 2 * pow2(31)) by (nonlinear_arith)
                        requires
                            self as int == x as int * pow2(31),
                            x as int >= 2,
                            pow2(31) > 0,
                    ;
                    assert(false);
                }
            }
            x = x / 2;
            count = count + 1;
        }
        count
    }

    fn popcnt(self) -> (r: u32)
        ensures
            r as int == popcnt_rec(self as nat) as int,
    {
        proof {
            lemma2_to64();
            lemma2_to64_rest();
            lemma_popcnt_le(self as nat, 32);
        }
        let mut x: u32 = self;
        let mut count: u32 = 0;
        while x != 0
            invariant
                count + popcnt_rec(x as nat) == popcnt_rec(self as nat),
                popcnt_rec(self as nat) <= 32,
            decreases x,
        {
            count = count + x % 2;
            x = x / 2;
        }
        count
    }

    fn eqz(self) -> bool {
        self == 0
    }

    fn eq_(v1: u32, v2: u32) -> bool {
        v1 == v2
    }

    fn ne_(v1: u32, v2: u32) -> bool {
        v1 != v2
    }

    fn ltu(v1: u32, v2: u32) -> bool {
        v1 < v2
    }

    fn lts(v1: u32, v2: u32) -> bool {
        v1.to_signed() < v2.to_signed()
    }

    fn gtu(v1: u32, v2: u32) -> bool {
        v1 > v2
    }

    fn gts(v1: u32, v2: u32) -> bool {
        v1.to_signed() > v2.to_signed()
    }

    fn leu(v1: u32, v2: u32) -> bool {
        v1 <= v2
    }

    fn les(v1: u32, v2: u32) -> bool {
        v1.to_signed() <= v2.to_signed()
    }

    fn geu(v1: u32, v2: u32) -> bool {
        v1 >= v2
    }

    fn ges(v1: u32, v2: u32) -> bool {
        v1.to_signed() >= v2.to_signed()
    }

    fn div_s(v1: u32, v2: u32) -> (r: u32)
        ensures
            r as int == to_unsigned(
                trunc_div(as_signed(v1 as int, 32), as_signed(v2 as int, 32)),
                32,
            ),
    {
        proof {
            lemma2_to64();
            lemma2_to64_rest();
        }
        let neg1 = v1 >= 0x8000_0000;
        let neg2 = v2 >= 0x8000_0000;
        let m1: u32 = if neg1 {
            (0x1_0000_0000u64 - v1 as u64) as u32
        } else {
            v1
        };
        let m2: u32 = if neg2 {
            (0x1_0000_0000u64 - v2 as u64) as u32
        } else {
            v2
        };
        let q = m1 / m2;
        if neg1 != neg2 {
            if q == 0 {
                proof {
                    lemma_small_mod(0, pow2(32));
                }
                0
            } else {
                proof {
                    lemma_mod_multiples_vanish(1, -(q as int), pow2(32) as int);
                    lemma_small_mod((pow2(32) - q) as nat, pow2(32));
                }
                (0x1_0000_0000u64 - q as u64) as u32
            }
        } else {
            proof {
                lemma_small_mod(q as nat, pow2(32));
            }
            q
        }
    }

    fn rem_s(v1: u32, v2: u32) -> (r: u32)
        ensures
            r as int == to_unsigned(
                trunc_rem(as_signed(v1 as int, 32), as_signed(v2 as int, 32)),
                32,
            ),
    {
        proof {
            lemma2_to64();
            lemma2_to64_rest();
        }
        let neg1 = v1 >= 0x8000_0000;
        let neg2 = v2 >= 0x8000_0000;
        let m1: u32 = if neg1 {
            (0x1_0000_0000u64 - v1 as u64) as u32
        } else {
            v1
        };
        let m2: u32 = if neg2 {
            (0x1_0000_0000u64 - v2 as u64) as u32
        } else {
            v2
        };
        let rm = m1 % m2;
        proof {
            let a = as_signed(v1 as int, 32);
            let b = as_signed(v2 as int, 32);
            lemma_fundamental_div_mod(m1 as int, m2 as int);
            assert(b * trunc_div(a, b) == (if neg1 {
                -(m2 as int * (m1 as int / m2 as int))
            } else {
                m2 as int * (m1 as int / m2 as int)
            })) by (nonlinear_arith)
                requires
                    b == (if neg2 {
                        -(m2 as int)
                    } else {
                        m2 as int
                    }),
                    m2 > 0,
                    trunc_div(a, b) == (if neg1 != neg2 {
                        -(m1 as int / m2 as int)
                    } else {
                        m1 as int / m2 as int
                    }),
            ;
        }
        if neg1 && rm != 0 {
            proof {
                lemma_mod_multiples_vanish(1, -(rm as int), pow2(32) as int);
                lemma_small_mod((pow2(32) - rm) as nat, pow2(32));
            }
            (0x1_0000_0000u64 - rm as u64) as u32
        } else {
            proof {
                lemma_small_mod(rm as nat, pow2(32));
            }
            rm
        }
    }

    fn shl(v1: u32, v2: u32) -> (r: u32)
        ensures
            r as int == shl_w(v1 as int, v2 as int, 32),
    {
        let n = v2 % 32;
        let wide = (v1 as u64) << n;
        proof {
            lemma2_to64();
            lemma2_to64_rest();
            lemma_pow2_strictly_increases(n as nat, 32);
            lemma_mul_inequality(pow2(n as nat) as int, pow2(32) as int, v1 as int);
            assert(v1 as int * pow2(n as nat) <= u64::MAX) by (nonlinear_arith)
                requires
                    v1 as int * pow2(32) <= pow2(32) * pow2(32),
                    v1 as int * pow2(n as nat) <= v1 as int * pow2(32) || v1 == 0,
                    pow2(32) * pow2(32) == 0x1_0000_0000_0000_0000,
                    v1 as int * pow2(n as nat) >= 0,
            ;
            lemma_u64_shl_is_mul(v1 as u64, n as u64);
        }
        (wide % 0x1_0000_0000u64) as u32
    }

    fn shr_u(v1: u32, v2: u32) -> (r: u32)
        ensures
            r as int == shr_u_w(v1 as int, v2 as int, 32),
    {
        let n = v2 % 32;
        proof {
            lemma_u32_shr_is_div(v1, n);
        }
        v1 >> n
    }

    fn shr_s(v1: u32, v2: u32) -> (r: u32)
        ensures
            r as int == shr_s_w(v1 as int, v2 as int, 32),
    {
        let n = v2 % 32;
        proof {
            lemma2_to64();
            lemma2_to64_rest();
        }
        if v1 < 0x8000_0000 {
            proof {
                lemma_u32_shr_is_div(v1, n);
                lemma_pow2_pos(n as nat);
                vstd::arithmetic::div_mod::lemma_div_is_ordered(0, v1 as int, pow2(n as nat) as int);
                vstd::arithmetic::div_mod::lemma_div_is_ordered_by_denominator(
                    v1 as int,
                    1,
                    pow2(n as nat) as int,
                );
                lemma_small_mod((v1 as int / pow2(n as nat) as int) as nat, pow2(32));
            }
            v1 >> n
        } else {
            let m: u32 = (0x1_0000_0000u64 - v1 as u64) as u32;
            let p: u64 = 1u64 << n;
            proof {
                lemma_u64_shl_is_mul(1u64, n as u64);
                lemma_pow2_pos(n as nat);
            }
            let q: u64 = (m as u64 + p - 1) / p;
            proof {
                lemma_neg_div(m as int, p as int);
                lemma_ceil_bounds(m as int, p as int);
                lemma_mod_multiples_vanish(1, -(q as int), pow2(32) as int);
                lemma_small_mod((pow2(32) - q) as nat, pow2(32));
            }
            (0x1_0000_0000u64 - q) as u32
        }
    }

    fn rotl(v1: u32, v2: u32) -> (r: u32)
        ensures
            r == v1.rotl_spec(v2),
    {
        let n = v2 % 32;
        (v1 << n) | (v1 >> ((32 - n) % 32))
    }

    fn rotr(v1: u32, v2: u32) -> (r: u32)
        ensures
            r == v1.rotr_spec(v2),
    {
        let n = v2 % 32;
        (v1 >> n) | (v1 << ((32 - n) % 32))
    }
}

/// Law: rotating left and then right by the same amount restores the
/// 32-bit value, and the other way round.
pub proof fn lemma_u32_rot_roundtrip(a: u32, k: u32)
    ensures
        a.rotl_spec(k).rotr_spec(k) == a,
        a.rotr_spec(k).rotl_spec(k) == a,
{
    let n: u32 = k % 32;
    let m: u32 = ((32 - n) % 32) as u32;
    let b: u32 = (a << n) | (a >> m);
    let c: u32 = (a >> n) | (a << m);
    assert(((b >> n) | (b << m)) == a && ((c << n) | (c >> m)) == a) by (bit_vector)
        requires
            n < 32,
            m < 32,
            n == 0 ==> m == 0,
            n != 0 ==> n + m == 32,
            b == ((a << n) | (a >> m)),
            c == ((a >> n) | (a << m)),
    ;
}

/// Law: rotating left and then right by the same amount restores the
/// 64-bit value, and the other way round.
pub proof fn lemma_u64_rot_roundtrip(a: u64, k: u64)
    ensures
        a.rotl_spec(k).rotr_spec(k) == a,
        a.rotr_spec(k).rotl_spec(k) == a,
{
    let n: u64 = k % 64;
    let m: u64 = ((64 - n) % 64) as u64;
    let b: u64 = (a << n) | (a >> m);
    let c: u64 = (a >> n) | (a << m);
    assert(((b >> n) | (b << m)) == a && ((c << n) | (c >> m)) == a) by (bit_vector)
        requires
            n < 64,
            m < 64,
            n == 0 ==> m == 0,
            n != 0 ==> n + m == 64,
            b == ((a << n) | (a >> m)),
            c == ((a >> n) | (a << m)),
    ;
}

impl SupportedInteger<i64> for u64 {
    open spec fn as_int(self) -> int {
        self as int
    }

    open spec fn wid() -> nat {
        64
    }

    open spec fn sig_int(v: i64) -> int {
        v as int
    }

    open spec fn rotl_spec(self, k: u64) -> u64 {
        (self << (k % 64)) | (self >> ((64 - (k % 64)) % 64))
    }

    open spec fn rotr_spec(self, k: u64) -> u64 {
        (self >> (k % 64)) | (self << ((64 - (k % 64)) % 64))
    }

    fn zero() -> u64 {
        0
    }

    fn one() -> u64 {
        1
    }

    fn len() -> u64 {
        64
    }

    fn max_value() -> (r: u64)
        ensures
            r as int == pow2(64) - 1,
    {
        proof {
            lemma2_to64();
        }
        u64::MAX
    }

    fn to_signed(self) -> (r: i64)
        ensures
            r as int == as_signed(self as int, 64),
    {
        proof {
            lemma2_to64_rest();
        }
        if self < 0x8000_0000_0000_0000 {
            self as i64
        } else {
            ((self as i128) - 0x1_0000_0000_0000_0000i128) as i64
        }
    }

    fn from_signed(val: i64) -> (r: u64)
        ensures
            r as int == to_unsigned(val as int, 64),
    {
        proof {
            lemma2_to64_rest();
            if val < 0 {
                lemma_mod_multiples_vanish(1, val as int, pow2(64) as int);
                lemma_small_mod((val + pow2(64)) as nat, pow2(64));
            } else {
                lemma_small_mod(val as nat, pow2(64));
            }
        }
        if val >= 0 {
            val as u64
        } else {
            ((val as i128) + 0x1_0000_0000_0000_0000i128) as u64
        }
    }

    fn clz(self) -> (r: u64)
        ensures
            r as int == clz_rec(self as int, 64) as int,
    {
        proof {
            lemma2_to64_rest();
            lemma_clz_le(self as int, 64);
        }
        if self == 0 {
            proof {
                lemma_clz_zero(64);
            }
            return 64;
        }
        let mut x: u64 = self;
        let mut count: u64 = 0;
        while x < 0x8000_0000_0000_0000
            invariant
                1 <= x,
                count + clz_rec(x as int, 64) == clz_rec(self as int, 64),
                clz_rec(self as int, 64) <= 64,
            decreases 64 - count,
        {
            proof {
                lemma2_to64_rest();
                lemma_clz_double(x as int, 64);
                assert(clz_rec(x as int, 64) >= 1);
            }
            count = count + 1;
            x = x * 2;
        }
        proof {
            lemma2_to64_rest();
            assert(clz_rec(x as int, 64) == 0);
        }
        count
    }

    fn ctz(self) -> (r: u64)
        ensures
            r as int == ctz_rec(self as int, 64) as int,
    {
        if self == 0 {
            proof {
                lemma_ctz_zero(64);
            }
            return 64;
        }
        let mut x: u64 = self;
        let mut count: u64 = 0;
        proof {
            lemma2_to64();
            lemma2_to64_rest();
        }
        while x % 2 == 0
            invariant
                1 <= x,
                count <= 63,
                count + ctz_rec(x as int, (64 - count) as nat) == ctz_rec(self as int, 64),
                self as int == x as int * pow2(count as nat),
            decreases x,
        {
            proof {
                lemma2_to64();
                lemma2_to64_rest();
                lemma_pow2_adds(count as nat, 1);
                assert(x as int == 2 * ((x as int) / 2));
                assert((x as int) * pow2(count as nat) == ((x as int) / 2) * pow2(
                    (count + 1) as nat,
                )) by (nonlinear_arith)
                    requires
                        x as int == 2 * ((x as int) / 2),
                        pow2((count + 1) as nat) == pow2(count as nat) * 2,
                ;
                if count == 63 {
                    assert(self as int >= 2 * pow2(63)) by (nonlinear_arith)
                        requires
                            self as int == x as int * pow2(63),
                            x as int >= 2,
                            pow2(63) > 0,
                    ;
                    assert(false);
                }
            }
            x = x / 2;
            count = count + 1;
        }
        count
    }

    fn popcnt(self) -> (r: u64)
        ensures
            r as int == popcnt_rec(self as nat) as int,
    {
        proof {
            lemma2_to64_rest();
            lemma_popcnt_le(self as nat, 64);
        }
        let mut x: u64 = self;
        let mut count: u64 = 0;
        while x != 0
            invariant
                count + popcnt_rec(x as nat) == popcnt_rec(self as nat),
                popcnt_rec(self as nat) <= 64,
            decreases x,
        {
            count = count + x % 2;
            x = x / 2;
        }
        count
    }

    fn eqz(self) -> bool {
        self == 0
    }

    fn eq_(v1: u64, v2: u64) -> bool {
        v1 == v2
    }

    fn ne_(v1: u64, v2: u64) -> bool {
        v1 != v2
    }

    fn ltu(v1: u64, v2: u64) -> bool {
        v1 < v2
    }

    fn lts(v1: u64, v2: u64) -> bool {
        v1.to_signed() < v2.to_signed()
    }

    fn gtu(v1: u64, v2: u64) -> bool {
        v1 > v2
    }

    fn gts(v1: u64, v2: u64) -> bool {
        v1.to_signed() > v2.to_signed()
    }

    fn leu(v1: u64, v2: u64) -> bool {
        v1 <= v2
    }

    fn les(v1: u64, v2: u64) -> bool {
        v1.to_signed() <= v2.to_signed()
    }

    fn geu(v1: u64, v2: u64) -> bool {
        v1 >= v2
    }

    fn ges(v1: u64, v2: u64) -> bool {
        v1.to_signed() >= v2.to_signed()
    }

    fn div_s(v1: u64, v2: u64) -> (r: u64)
        ensures
            r as int == to_unsigned(
                trunc_div(as_signed(v1 as int, 64), as_signed(v2 as int, 64)),
                64,
            ),
    {
        proof {
            lemma2_to64_rest();
        }
        let neg1 = v1 >= 0x8000_0000_0000_0000;
        let neg2 = v2 >= 0x8000_0000_0000_0000;
        let m1: u64 = if neg1 {
            (0x1_0000_0000_0000_0000u128 - v1 as u128) as u64
        } else {
            v1
        };
        let m2: u64 = if neg2 {
            (0x1_0000_0000_0000_0000u128 - v2 as u128) as u64
        } else {
            v2
        };
        let q = m1 / m2;
        if neg1 != neg2 {
            if q == 0 {
                proof {
                    lemma_small_mod(0, pow2(64));
                }
                0
            } else {
                proof {
                    lemma_mod_multiples_vanish(1, -(q as int), pow2(64) as int);
                    lemma_small_mod((pow2(64) - q) as nat, pow2(64));
                }
                (0x1_0000_0000_0000_0000u128 - q as u128) as u64
            }
        } else {
            proof {
                lemma_small_mod(q as nat, pow2(64));
            }
            q
        }
    }

    fn rem_s(v1: u64, v2: u64) -> (r: u64)
        ensures
            r as int == to_unsigned(
                trunc_rem(as_signed(v1 as int, 64), as_signed(v2 as int, 64)),
                64,
            ),
    {
        proof {
            lemma2_to64_rest();
        }
        let neg1 = v1 >= 0x8000_0000_0000_0000;
        let neg2 = v2 >= 0x8000_0000_0000_0000;
        let m1: u64 = if neg1 {
            (0x1_0000_0000_0000_0000u128 - v1 as u128) as u64
        } else {
            v1
        };
        let m2: u64 = if neg2 {
            (0x1_0000_0000_0000_0000u128 - v2 as u128) as u64
        } else {
            v2
        };
        let rm = m1 % m2;
        proof {
            let a = as_signed(v1 as int, 64);
            let b = as_signed(v2 as int, 64);
            lemma_fundamental_div_mod(m1 as int, m2 as int);
            assert(b * trunc_div(a, b) == (if neg1 {
                -(m2 as int * (m1 as int / m2 as int))
            } else {
                m2 as int * (m1 as int / m2 as int)
            })) by (nonlinear_arith)
                requires
                    b == (if neg2 {
                        -(m2 as int)
                    } else {
                        m2 as int
                    }),
                    m2 > 0,
                    trunc_div(a, b) == (if neg1 != neg2 {
                        -(m1 as int / m2 as int)
                    } else {
                        m1 as int / m2 as int
                    }),
            ;
        }
        if neg1 && rm != 0 {
            proof {
                lemma_mod_multiples_vanish(1, -(rm as int), pow2(64) as int);
                lemma_small_mod((pow2(64) - rm) as nat, pow2(64));
            }
            (0x1_0000_0000_0000_0000u128 - rm as u128) as u64
        } else {
            proof {
                lemma_small_mod(rm as nat, pow2(64));
            }
            rm
        }
    }

    fn shl(v1: u64, v2: u64) -> (r: u64)
        ensures
            r as int == shl_w(v1 as int, v2 as int, 64),
    {
        let n = v2 % 64;
        if n == 0 {
            proof {
                lemma2_to64();
                lemma_small_mod(v1 as nat, pow2(64));
                assert(v1 as int * pow2(0) == v1 as int);
                assert(shl_w(v1 as int, v2 as int, 64) == v1 as int);
            }
            return v1;
        }
        let modulus = 1u64 << (64 - n);
        proof {
            lemma2_to64();
            lemma_pow2_strictly_increases((64 - n) as nat, 64);
            lemma_u64_shl_is_mul(1u64, (64 - n) as u64);
            lemma_pow2_pos((64 - n) as nat);
        }
        let low = v1 % modulus;
        proof {
            lemma_shl_in_width(v1 as int, n as nat, 64);
            lemma_u64_shl_is_mul(low, n);
        }
        low << n
    }

    fn shr_u(v1: u64, v2: u64) -> (r: u64)
        ensures
            r as int == shr_u_w(v1 as int, v2 as int, 64),
    {
        let n = v2 % 64;
        proof {
            lemma_u64_shr_is_div(v1, n);
        }
        v1 >> n
    }

    fn shr_s(v1: u64, v2: u64) -> (r: u64)
        ensures
            r as int == shr_s_w(v1 as int, v2 as int, 64),
    {
        let n = v2 % 64;
        proof {
            lemma2_to64_rest();
        }
        if v1 < 0x8000_0000_0000_0000 {
            proof {
                lemma_u64_shr_is_div(v1, n);
                lemma_pow2_pos(n as nat);
                vstd::arithmetic::div_mod::lemma_div_is_ordered(0, v1 as int, pow2(n as nat) as int);
                vstd::arithmetic::div_mod::lemma_div_is_ordered_by_denominator(
                    v1 as int,
                    1,
                    pow2(n as nat) as int,
                );
                lemma_small_mod((v1 as int / pow2(n as nat) as int) as nat, pow2(64));
            }
            v1 >> n
        } else {
            let m: u64 = (0x1_0000_0000_0000_0000u128 - v1 as u128) as u64;
            let p: u64 = 1u64 << n;
            proof {
                lemma_pow2_strictly_increases(n as nat, 64);
                lemma_u64_shl_is_mul(1u64, n);
                lemma_pow2_pos(n as nat);
            }
            let q: u128 = (m as u128 + p as u128 - 1) / (p as u128);
            proof {
                lemma_neg_div(m as int, p as int);
                lemma_ceil_bounds(m as int, p as int);
                lemma_mod_multiples_vanish(1, -(q as int), pow2(64) as int);
                lemma_small_mod((pow2(64) - q) as nat, pow2(64));
            }
            (0x1_0000_0000_0000_0000u128 - q) as u64
        }
    }

    fn rotl(v1: u64, v2: u64) -> (r: u64)
        ensures
            r == v1.rotl_spec(v2),
    {
        let n = v2 % 64;
        (v1 << n) | (v1 >> ((64 - n) % 64))
    }

    fn rotr(v1: u64, v2: u64) -> (r: u64)
        ensures
            r == v1.rotr_spec(v2),
    {
        let n = v2 % 64;
        (v1 >> n) | (v1 << ((64 - n) % 64))
    }
}

} // verus!
