//! Signed 24.8 fixed-point numbers, the protocol's representation of
//! real-valued arguments.
use vstd::prelude::*;
use vstd::std_specs::convert::FromSpec;

verus! {

/// Integer division rounding toward zero, as Rust's `/` does on signed integers.
pub open spec fn div_toward_zero(a: int, b: int) -> int {
    let q = (if a < 0 { -a } else { a }) / (if b < 0 { -b } else { b });
    if (a < 0) != (b < 0) {
        -q
    } else {
        q
    }
}

/// A signed fixed-point number with 8 fractional bits: the stored integer
/// counts units of 1/256.
#[derive(Clone, Copy, Debug, PartialEq, Eq, Structural, PartialOrd, Ord, Hash)]
pub struct Fixed(i32);

/// The stored integer of a fixed-point number built from `n`.
pub open spec fn scaled(n: int) -> i32 {
    (n * 256) as i32
}

/// The integer part of a stored value, rounded toward zero.
pub open spec fn integer_part(bits: i32) -> int {
    div_toward_zero(bits as int, 256)
}

impl Fixed {
    /// The stored integer, in units of 1/256.
    pub closed spec fn bits(self) -> i32 {
        self.0
    }

    /// The fixed-point number whose stored integer is `b`.
    pub closed spec fn with_bits(b: i32) -> Fixed {
        Fixed(b)
    }

    pub broadcast proof fn lemma_with_bits(b: i32)
        ensures
            #[trigger] Fixed::with_bits(b).bits() == b,
    {
    }

    pub broadcast proof fn lemma_bits_determine(a: Fixed, b: Fixed)
        ensures
            #[trigger] a.bits() == #[trigger] b.bits() ==> a == b,
    {
    }

    /// Builds a number from its stored integer.
    pub fn from_bits(b: i32) -> (r: Fixed)
        ensures
            r.bits() == b,
    {
        Fixed(b)
    }

    /// The stored integer, in units of 1/256.
    pub fn to_bits(self) -> (r: i32)
        ensures
            r == self.bits(),
    {
        self.0
    }

    /// The absolute value.
    pub fn abs(self) -> (r: Fixed)
        requires
            self.bits() != i32::MIN,
        ensures
            r.bits() == (if self.bits() < 0 { -self.bits() } else { self.bits() as int }),
    {
        if self.0 < 0 {
            Fixed(-self.0)
        } else {
            self
        }
    }
}

pub broadcast group group_fixed_lemmas {
    Fixed::lemma_with_bits,
    Fixed::lemma_bits_determine,
}

impl std::ops::Add for Fixed {
    type Output = Fixed;

    fn add(self, rhs: Fixed) -> (r: Fixed)
        ensures
            r.bits() == self.bits() + rhs.bits(),
    {
        Fixed(self.0 + rhs.0)
    }
}

impl vstd::std_specs::ops::AddSpecImpl for Fixed {
    open spec fn obeys_add_spec() -> bool {
        true
    }

    open spec fn add_req(self, rhs: Fixed) -> bool {
        i32::MIN <= self.bits() + rhs.bits() <= i32::MAX
    }

    open spec fn add_spec(self, rhs: Fixed) -> Fixed {
        Fixed::with_bits((self.bits() + rhs.bits()) as i32)
    }
}

impl std::ops::Sub for Fixed {
    type Output = Fixed;

    fn sub(self, rhs: Fixed) -> (r: Fixed)
        ensures
            r.bits() == self.bits() - rhs.bits(),
    {
        Fixed(self.0 - rhs.0)
    }
}

impl vstd::std_specs::ops::SubSpecImpl for Fixed {
    open spec fn obeys_sub_spec() -> bool {
        true
    }

    open spec fn sub_req(self, rhs: Fixed) -> bool {
        i32::MIN <= self.bits() - rhs.bits() <= i32::MAX
    }

    open spec fn sub_spec(self, rhs: Fixed) -> Fixed {
        Fixed::with_bits((self.bits() - rhs.bits()) as i32)
    }
}

/// The stored integer of a product: the wide product shifted right by 8
/// (rounding toward negative infinity), cut to 32 bits.
pub open spec fn mul_bits(a: i32, b: i32) -> i32 {
    ((a * b) / 256) as i32
}

/// The stored integer of a quotient: the dividend shifted left by 8, divided
/// by the divisor rounding toward zero, cut to 32 bits.
pub open spec fn div_bits(a: i32, b: i32) -> i32 {
    div_toward_zero(a * 256, b as int) as i32
}

fn mul_raw(a: i32, b: i32) -> (r: i32)
    ensures
        r == mul_bits(a, b),
{
    proof {
        assert(-0x4000_0000_0000_0000 <= (a as int) * (b as int) <= 0x4000_0000_0000_0000)
            by (nonlinear_arith)
            requires
                i32::MIN <= a <= i32::MAX,
                i32::MIN <= b <= i32::MAX,
        ;
    }
    let p: i64 = a as i64 * b as i64;
    let q: i64 = p / 256;
    let fl: i64 = if p < 0 && q * 256 != p {
        q - 1
    } else {
        q
    };
    proof {
        assert(fl == p as int / 256) by (nonlinear_arith)
            requires
                q == div_toward_zero(p as int, 256),
                fl == (if p < 0 && q * 256 != p { q - 1 } else { q as int }),
        ;
    }
    #[verifier::truncate]
    (fl as i32)
}

fn div_raw(a: i32, b: i32) -> (r: i32)
    requires
        b != 0,
    ensures
        r == div_bits(a, b),
{
    let n: i64 = a as i64 * 256;
    let d: i64 = b as i64;
    let n_abs: i64 = if n < 0 { -n } else { n };
    let d_abs: i64 = if d < 0 { -d } else { d };
    let q_abs: i64 = n_abs / d_abs;
    let q: i64 = if (n < 0) != (d < 0) { -q_abs } else { q_abs };
    #[verifier::truncate]
    (q as i32)
}

impl std::ops::Mul for Fixed {
    type Output = Fixed;

    fn mul(self, rhs: Fixed) -> (r: Fixed)
        ensures
            r.bits() == mul_bits(self.bits(), rhs.bits()),
    {
        Fixed(mul_raw(self.0, rhs.0))
    }
}

impl vstd::std_specs::ops::MulSpecImpl for Fixed {
    open spec fn obeys_mul_spec() -> bool {
        true
    }

    open spec fn mul_req(self, rhs: Fixed) -> bool {
        true
    }

    open spec fn mul_spec(self, rhs: Fixed) -> Fixed {
        Fixed::with_bits(mul_bits(self.bits(), rhs.bits()))
    }
}

impl std::ops::Div for Fixed {
    type Output = Fixed;

    fn div(self, rhs: Fixed) -> (r: Fixed)
        ensures
            r.bits() == div_bits(self.bits(), rhs.bits()),
    {
        Fixed(div_raw(self.0, rhs.0))
    }
}

impl vstd::std_specs::ops::DivSpecImpl for Fixed {
    open spec fn obeys_div_spec() -> bool {
        true
    }

    open spec fn div_req(self, rhs: Fixed) -> bool {
        rhs.bits() != 0
    }

    open spec fn div_spec(self, rhs: Fixed) -> Fixed {
        Fixed::with_bits(div_bits(self.bits(), rhs.bits()))
    }
}

impl std::ops::Neg for Fixed {
    type Output = Fixed;

    fn neg(self) -> (r: Fixed)
        ensures
            r.bits() == -self.bits(),
    {
        Fixed(-self.0)
    }
}

impl vstd::std_specs::ops::NegSpecImpl for Fixed {
    open spec fn obeys_neg_spec() -> bool {
        true
    }

    open spec fn neg_req(self) -> bool {
        self.bits() != i32::MIN
    }

    open spec fn neg_spec(self) -> Fixed {
        Fixed::with_bits((-self.bits()) as i32)
    }
}

impl std::ops::AddAssign for Fixed {
    fn add_assign(&mut self, rhs: Fixed)
        requires
            i32::MIN <= old(self).bits() + rhs.bits() <= i32::MAX,
        ensures
            final(self).bits() == old(self).bits() + rhs.bits(),
    {
        *self = *self + rhs;
    }
}

impl std::ops::SubAssign for Fixed {
    fn sub_assign(&mut self, rhs: Fixed)
        requires
            i32::MIN <= old(self).bits() - rhs.bits() <= i32::MAX,
        ensures
            final(self).bits() == old(self).bits() - rhs.bits(),
    {
        *self = *self - rhs;
    }
}

impl std::ops::MulAssign for Fixed {
    fn mul_assign(&mut self, rhs: Fixed)
        ensures
            final(self).bits() == mul_bits(old(self).bits(), rhs.bits()),
    {
        *self = *self * rhs;
    }
}

impl std::ops::DivAssign for Fixed {
    fn div_assign(&mut self, rhs: Fixed)
        requires
            rhs.bits() != 0,
        ensures
            final(self).bits() == div_bits(old(self).bits(), rhs.bits()),
    {
        *self = *self / rhs;
    }
}

/// Every integer that fits in 24 signed bits comes back unchanged from a
/// trip into a fixed-point number and out again, through any integer type
/// that can hold it.
pub proof fn lemma_integer_round_trip(n: int)
    requires
        -0x80_0000 <= n < 0x80_0000,
    ensures
        i8::MIN <= n <= i8::MAX ==> <i8 as FromSpec<Fixed>>::from_spec(
            <Fixed as FromSpec<i8>>::from_spec(n as i8),
        ) == n,
        i16::MIN <= n <= i16::MAX ==> <i16 as FromSpec<Fixed>>::from_spec(
            <Fixed as FromSpec<i16>>::from_spec(n as i16),
        ) == n,
        i32::MIN <= n <= i32::MAX ==> <i32 as FromSpec<Fixed>>::from_spec(
            <Fixed as FromSpec<i32>>::from_spec(n as i32),
        ) == n,
        i64::MIN <= n <= i64::MAX ==> <i64 as FromSpec<Fixed>>::from_spec(
            <Fixed as FromSpec<i64>>::from_spec(n as i64),
        ) == n,
        i128::MIN <= n <= i128::MAX ==> <i128 as FromSpec<Fixed>>::from_spec(
            <Fixed as FromSpec<i128>>::from_spec(n as i128),
        ) == n,
        isize::MIN <= n <= isize::MAX ==> <isize as FromSpec<Fixed>>::from_spec(
            <Fixed as FromSpec<isize>>::from_spec(n as isize),
        ) == n,
        u8::MIN <= n <= u8::MAX ==> <u8 as FromSpec<Fixed>>::from_spec(
            <Fixed as FromSpec<u8>>::from_spec(n as u8),
        ) == n,
        u16::MIN <= n <= u16::MAX ==> <u16 as FromSpec<Fixed>>::from_spec(
            <Fixed as FromSpec<u16>>::from_spec(n as u16),
        ) == n,
        u32::MIN <= n <= u32::MAX ==> <u32 as FromSpec<Fixed>>::from_spec(
            <Fixed as FromSpec<u32>>::from_spec(n as u32),
        ) == n,
        u64::MIN <= n <= u64::MAX ==> <u64 as FromSpec<Fixed>>::from_spec(
            <Fixed as FromSpec<u64>>::from_spec(n as u64),
        ) == n,
        u128::MIN <= n <= u128::MAX ==> <u128 as FromSpec<Fixed>>::from_spec(
            <Fixed as FromSpec<u128>>::from_spec(n as u128),
        ) == n,
        usize::MIN <= n <= usize::MAX ==> <usize as FromSpec<Fixed>>::from_spec(
            <Fixed as FromSpec<usize>>::from_spec(n as usize),
        ) == n,
{
    lemma_scaled_integer_part(n);
}

proof fn lemma_scaled_integer_part(n: int)
    requires
        -0x80_0000 <= n < 0x80_0000,
    ensures
        scaled(n) == n * 256,
        integer_part(scaled(n)) == n,
{
    assert(-0x8000_0000 <= n * 256 < 0x8000_0000) by (nonlinear_arith)
        requires
            -0x80_0000 <= n < 0x80_0000,
    ;
    assert(div_toward_zero(n * 256, 256) == n) by (nonlinear_arith)
        requires
            -0x80_0000 <= n < 0x80_0000,
    ;
}

fn scale_raw(n: i32) -> (r: i32)
    ensures
        r == scaled(n as int),
{
    let w: i64 = n as i64 * 256;
    #[verifier::truncate]
    (w as i32)
}

impl From<i8> for Fixed {
    /// Shifts the integer left by 8 bits, after cutting it to 32 bits.
    fn from(v: i8) -> (r: Fixed)
        ensures
            r.bits() == scaled((v as i32) as int),
    {
        let n: i32 = v as i32;
        Fixed(scale_raw(n))
    }
}

impl vstd::std_specs::convert::FromSpecImpl<i8> for Fixed {
    open spec fn obeys_from_spec() -> bool {
        true
    }

    open spec fn from_spec(v: i8) -> Fixed {
        Fixed::with_bits(scaled((v as i32) as int))
    }
}

impl From<Fixed> for i8 {
    /// The integer part, rounded toward zero, cut to the target width.
    fn from(f: Fixed) -> (r: i8)
        ensures
            r == integer_part(f.bits()) as i8,
    {
        let q: i32 = f.0 / 256;
        #[verifier::truncate]
        (q as i8)
    }
}

impl vstd::std_specs::convert::FromSpecImpl<Fixed> for i8 {
    open spec fn obeys_from_spec() -> bool {
        true
    }

    open spec fn from_spec(f: Fixed) -> i8 {
        integer_part(f.bits()) as i8
    }
}

impl From<i16> for Fixed {
    /// Shifts the integer left by 8 bits, after cutting it to 32 bits.
    fn from(v: i16) -> (r: Fixed)
        ensures
            r.bits() == scaled((v as i32) as int),
    {
        let n: i32 = v as i32;
        Fixed(scale_raw(n))
    }
}

impl vstd::std_specs::convert::FromSpecImpl<i16> for Fixed {
    open spec fn obeys_from_spec() -> bool {
        true
    }

    open spec fn from_spec(v: i16) -> Fixed {
        Fixed::with_bits(scaled((v as i32) as int))
    }
}

impl From<Fixed> for i16 {
    /// The integer part, rounded toward zero, cut to the target width.
    fn from(f: Fixed) -> (r: i16)
        ensures
            r == integer_part(f.bits()) as i16,
    {
        let q: i32 = f.0 / 256;
        #[verifier::truncate]
        (q as i16)
    }
}

impl vstd::std_specs::convert::FromSpecImpl<Fixed> for i16 {
    open spec fn obeys_from_spec() -> bool {
        true
    }

    open spec fn from_spec(f: Fixed) -> i16 {
        integer_part(f.bits()) as i16
    }
}

impl From<i32> for Fixed {
    /// Shifts the integer left by 8 bits, after cutting it to 32 bits.
    fn from(v: i32) -> (r: Fixed)
        ensures
            r.bits() == scaled((v as i32) as int),
    {
        let n: i32 = v;
        Fixed(scale_raw(n))
    }
}

impl vstd::std_specs::convert::FromSpecImpl<i32> for Fixed {
    open spec fn obeys_from_spec() -> bool {
        true
    }

    open spec fn from_spec(v: i32) -> Fixed {
        Fixed::with_bits(scaled((v as i32) as int))
    }
}

impl From<Fixed> for i32 {
    /// The integer part, rounded toward zero, cut to the target width.
    fn from(f: Fixed) -> (r: i32)
        ensures
            r == integer_part(f.bits()) as i32,
    {
        let q: i32 = f.0 / 256;
        #[verifier::truncate]
        (q as i32)
    }
}

impl vstd::std_specs::convert::FromSpecImpl<Fixed> for i32 {
    open spec fn obeys_from_spec() -> bool {
        true
    }

    open spec fn from_spec(f: Fixed) -> i32 {
        integer_part(f.bits()) as i32
    }
}

impl From<i64> for Fixed {
    /// Shifts the integer left by 8 bits, after cutting it to 32 bits.
    fn from(v: i64) -> (r: Fixed)
        ensures
            r.bits() == scaled((v as i32) as int),
    {
        #[verifier::truncate]
        let n: i32 = v as i32;
        Fixed(scale_raw(n))
    }
}

impl vstd::std_specs::convert::FromSpecImpl<i64> for Fixed {
    open spec fn obeys_from_spec() -> bool {
        true
    }

    open spec fn from_spec(v: i64) -> Fixed {
        Fixed::with_bits(scaled((v as i32) as int))
    }
}

impl From<Fixed> for i64 {
    /// The integer part, rounded toward zero, cut to the target width.
    fn from(f: Fixed) -> (r: i64)
        ensures
            r == integer_part(f.bits()) as i64,
    {
        let q: i32 = f.0 / 256;
        #[verifier::truncate]
        (q as i64)
    }
}

impl vstd::std_specs::convert::FromSpecImpl<Fixed> for i64 {
    open spec fn obeys_from_spec() -> bool {
        true
    }

    open spec fn from_spec(f: Fixed) -> i64 {
        integer_part(f.bits()) as i64
    }
}

impl From<i128> for Fixed {
    /// Shifts the integer left by 8 bits, after cutting it to 32 bits.
    fn from(v: i128) -> (r: Fixed)
        ensures
            r.bits() == scaled((v as i32) as int),
    {
        #[verifier::truncate]
        let n: i32 = v as i32;
        Fixed(scale_raw(n))
    }
}

impl vstd::std_specs::convert::FromSpecImpl<i128> for Fixed {
    open spec fn obeys_from_spec() -> bool {
        true
    }

    open spec fn from_spec(v: i128) -> Fixed {
        Fixed::with_bits(scaled((v as i32) as int))
    }
}

impl From<Fixed> for i128 {
    /// The integer part, rounded toward zero, cut to the target width.
    fn from(f: Fixed) -> (r: i128)
        ensures
            r == integer_part(f.bits()) as i128,
    {
        let q: i32 = f.0 / 256;
        #[verifier::truncate]
        (q as i128)
    }
}

impl vstd::std_specs::convert::FromSpecImpl<Fixed> for i128 {
    open spec fn obeys_from_spec() -> bool {
        true
    }

    open spec fn from_spec(f: Fixed) -> i128 {
        integer_part(f.bits()) as i128
    }
}

impl From<isize> for Fixed {
    /// Shifts the integer left by 8 bits, after cutting it to 32 bits.
    fn from(v: isize) -> (r: Fixed)
        ensures
            r.bits() == scaled((v as i32) as int),
    {
        #[verifier::truncate]
        let n: i32 = v as i32;
        Fixed(scale_raw(n))
    }
}

impl vstd::std_specs::convert::FromSpecImpl<isize> for Fixed {
    open spec fn obeys_from_spec() -> bool {
        true
    }

    open spec fn from_spec(v: isize) -> Fixed {
        Fixed::with_bits(scaled((v as i32) as int))
    }
}

impl From<Fixed> for isize {
    /// The integer part, rounded toward zero, cut to the target width.
    fn from(f: Fixed) -> (r: isize)
        ensures
            r == integer_part(f.bits()) as isize,
    {
        let q: i32 = f.0 / 256;
        #[verifier::truncate]
        (q as isize)
    }
}

impl vstd::std_specs::convert::FromSpecImpl<Fixed> for isize {
    open spec fn obeys_from_spec() -> bool {
        true
    }

    open spec fn from_spec(f: Fixed) -> isize {
        integer_part(f.bits()) as isize
    }
}

impl From<u8> for Fixed {
    /// Shifts the integer left by 8 bits, after cutting it to 32 bits.
    fn from(v: u8) -> (r: Fixed)
        ensures
            r.bits() == scaled((v as i32) as int),
    {
        let n: i32 = v as i32;
        Fixed(scale_raw(n))
    }
}

impl vstd::std_specs::convert::FromSpecImpl<u8> for Fixed {
    open spec fn obeys_from_spec() -> bool {
        true
    }

    open spec fn from_spec(v: u8) -> Fixed {
        Fixed::with_bits(scaled((v as i32) as int))
    }
}

impl From<Fixed> for u8 {
    /// The integer part, rounded toward zero, cut to the target width.
    fn from(f: Fixed) -> (r: u8)
        ensures
            r == integer_part(f.bits()) as u8,
    {
        let q: i32 = f.0 / 256;
        #[verifier::truncate]
        (q as u8)
    }
}

impl vstd::std_specs::convert::FromSpecImpl<Fixed> for u8 {
    open spec fn obeys_from_spec() -> bool {
        true
    }

    open spec fn from_spec(f: Fixed) -> u8 {
        integer_part(f.bits()) as u8
    }
}

impl From<u16> for Fixed {
    /// Shifts the integer left by 8 bits, after cutting it to 32 bits.
    fn from(v: u16) -> (r: Fixed)
        ensures
            r.bits() == scaled((v as i32) as int),
    {
        let n: i32 = v as i32;
        Fixed(scale_raw(n))
    }
}

impl vstd::std_specs::convert::FromSpecImpl<u16> for Fixed {
    open spec fn obeys_from_spec() -> bool {
        true
    }

    open spec fn from_spec(v: u16) -> Fixed {
        Fixed::with_bits(scaled((v as i32) as int))
    }
}

impl From<Fixed> for u16 {
    /// The integer part, rounded toward zero, cut to the target width.
    fn from(f: Fixed) -> (r: u16)
        ensures
            r == integer_part(f.bits()) as u16,
    {
        let q: i32 = f.0 / 256;
        #[verifier::truncate]
        (q as u16)
    }
}

impl vstd::std_specs::convert::FromSpecImpl<Fixed> for u16 {
    open spec fn obeys_from_spec() -> bool {
        true
    }

    open spec fn from_spec(f: Fixed) -> u16 {
        integer_part(f.bits()) as u16
    }
}

impl From<u32> for Fixed {
    /// Shifts the integer left by 8 bits, after cutting it to 32 bits.
    fn from(v: u32) -> (r: Fixed)
        ensures
            r.bits() == scaled((v as i32) as int),
    {
        #[verifier::truncate]
        let n: i32 = v as i32;
        Fixed(scale_raw(n))
    }
}

impl vstd::std_specs::convert::FromSpecImpl<u32> for Fixed {
    open spec fn obeys_from_spec() -> bool {
        true
    }

    open spec fn from_spec(v: u32) -> Fixed {
        Fixed::with_bits(scaled((v as i32) as int))
    }
}

impl From<Fixed> for u32 {
    /// The integer part, rounded toward zero, cut to the target width.
    fn from(f: Fixed) -> (r: u32)
        ensures
            r == integer_part(f.bits()) as u32,
    {
        let q: i32 = f.0 / 256;
        #[verifier::truncate]
        (q as u32)
    }
}

impl vstd::std_specs::convert::FromSpecImpl<Fixed> for u32 {
    open spec fn obeys_from_spec() -> bool {
        true
    }

    open spec fn from_spec(f: Fixed) -> u32 {
        integer_part(f.bits()) as u32
    }
}

impl From<u64> for Fixed {
    /// Shifts the integer left by 8 bits, after cutting it to 32 bits.
    fn from(v: u64) -> (r: Fixed)
        ensures
            r.bits() == scaled((v as i32) as int),
    {
        #[verifier::truncate]
        let n: i32 = v as i32;
        Fixed(scale_raw(n))
    }
}

impl vstd::std_specs::convert::FromSpecImpl<u64> for Fixed {
    open spec fn obeys_from_spec() -> bool {
        true
    }

    open spec fn from_spec(v: u64) -> Fixed {
        Fixed::with_bits(scaled((v as i32) as int))
    }
}

impl From<Fixed> for u64 {
    /// The integer part, rounded toward zero, cut to the target width.
    fn from(f: Fixed) -> (r: u64)
        ensures
            r == integer_part(f.bits()) as u64,
    {
        let q: i32 = f.0 / 256;
        #[verifier::truncate]
        (q as u64)
    }
}

impl vstd::std_specs::convert::FromSpecImpl<Fixed> for u64 {
    open spec fn obeys_from_spec() -> bool {
        true
    }

    open spec fn from_spec(f: Fixed) -> u64 {
        integer_part(f.bits()) as u64
    }
}

impl From<u128> for Fixed {
    /// Shifts the integer left by 8 bits, after cutting it to 32 bits.
    fn from(v: u128) -> (r: Fixed)
        ensures
            r.bits() == scaled((v as i32) as int),
    {
        #[verifier::truncate]
        let n: i32 = v as i32;
        Fixed(scale_raw(n))
    }
}

impl vstd::std_specs::convert::FromSpecImpl<u128> for Fixed {
    open spec fn obeys_from_spec() -> bool {
        true
    }

    open spec fn from_spec(v: u128) -> Fixed {
        Fixed::with_bits(scaled((v as i32) as int))
    }
}

impl From<Fixed> for u128 {
    /// The integer part, rounded toward zero, cut to the target width.
    fn from(f: Fixed) -> (r: u128)
        ensures
            r == integer_part(f.bits()) as u128,
    {
        let q: i32 = f.0 / 256;
        #[verifier::truncate]
        (q as u128)
    }
}

impl vstd::std_specs::convert::FromSpecImpl<Fixed> for u128 {
    open spec fn obeys_from_spec() -> bool {
        true
    }

    open spec fn from_spec(f: Fixed) -> u128 {
        integer_part(f.bits()) as u128
    }
}

impl From<usize> for Fixed {
    /// Shifts the integer left by 8 bits, after cutting it to 32 bits.
    fn from(v: usize) -> (r: Fixed)
        ensures
            r.bits() == scaled((v as i32) as int),
    {
        #[verifier::truncate]
        let n: i32 = v as i32;
        Fixed(scale_raw(n))
    }
}

impl vstd::std_specs::convert::FromSpecImpl<usize> for Fixed {
    open spec fn obeys_from_spec() -> bool {
        true
    }

    open spec fn from_spec(v: usize) -> Fixed {
        Fixed::with_bits(scaled((v as i32) as int))
    }
}

impl From<Fixed> for usize {
    /// The integer part, rounded toward zero, cut to the target width.
    fn from(f: Fixed) -> (r: usize)
        ensures
            r == integer_part(f.bits()) as usize,
    {
        let q: i32 = f.0 / 256;
        #[verifier::truncate]
        (q as usize)
    }
}

impl vstd::std_specs::convert::FromSpecImpl<Fixed> for usize {
    open spec fn obeys_from_spec() -> bool {
        true
    }

    open spec fn from_spec(f: Fixed) -> usize {
        integer_part(f.bits()) as usize
    }
}

} // verus!
