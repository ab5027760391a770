//! Arithmetic on IEEE 754 binary32 values, carried as `u32` bit patterns.
//!
//! Every machine value of the virtual machine is a 32-bit float; inside the
//! library it is held as its bit pattern. The arithmetic itself is done by
//! `rustc_apfloat`, a bit-exact software implementation of IEEE 754, reached
//! through trusted wrappers. Each wrapper's result is a pure function of the
//! operand bit patterns and is given an uninterpreted name that the library's
//! contracts speak of. Predicates that the binary32 encoding settles directly
//! (NaN, infinity, absolute value) are computed and verified here instead.

use vstd::prelude::*;

use rustc_apfloat::Float;
use rustc_apfloat::Round;
use rustc_apfloat::ieee::Single;

verus! {

pub uninterp spec fn fadd_bits(a: u32, b: u32) -> u32;

pub uninterp spec fn fsub_bits(a: u32, b: u32) -> u32;

pub uninterp spec fn fmul_bits(a: u32, b: u32) -> u32;

pub uninterp spec fn fdiv_bits(a: u32, b: u32) -> u32;

pub uninterp spec fn frem_bits(a: u32, b: u32) -> u32;

pub uninterp spec fn feq_bits(a: u32, b: u32) -> bool;

pub uninterp spec fn flt_bits(a: u32, b: u32) -> bool;

pub uninterp spec fn fle_bits(a: u32, b: u32) -> bool;

pub uninterp spec fn fmin_bits(a: u32, b: u32) -> u32;

pub uninterp spec fn fmax_bits(a: u32, b: u32) -> u32;

pub uninterp spec fn ftrunc_bits(a: u32) -> u32;

pub uninterp spec fn fceil_bits(a: u32) -> u32;

pub uninterp spec fn ffloor_bits(a: u32) -> u32;

pub uninterp spec fn bits_of_i32(v: i32) -> u32;

pub uninterp spec fn bits_of_u64(v: u64) -> u32;

pub uninterp spec fn i32_of_bits(a: u32) -> i32;

pub uninterp spec fn bits_of_decimal(s: Seq<char>) -> u32;

pub uninterp spec fn u64_of_bits(a: u32) -> u64;

/// The bit pattern of +0.0: all bits clear.
pub const ZERO_BITS: u32 = 0;

/// Relies on rustc_apfloat::ieee::Single: addition, round to nearest even.
#[verifier::external_body]
pub(crate) fn float_add(a: u32, b: u32) -> (r: u32)
    ensures
        r == fadd_bits(a, b),
{
    (Single::from_bits(a as u128) + Single::from_bits(b as u128)).value.to_bits() as u32
}

/// Relies on rustc_apfloat::ieee::Single: subtraction, round to nearest even.
#[verifier::external_body]
pub(crate) fn float_sub(a: u32, b: u32) -> (r: u32)
    ensures
        r == fsub_bits(a, b),
{
    (Single::from_bits(a as u128) - Single::from_bits(b as u128)).value.to_bits() as u32
}

/// Relies on rustc_apfloat::ieee::Single: multiplication, round to nearest even.
#[verifier::external_body]
pub(crate) fn float_mul(a: u32, b: u32) -> (r: u32)
    ensures
        r == fmul_bits(a, b),
{
    (Single::from_bits(a as u128) * Single::from_bits(b as u128)).value.to_bits() as u32
}

/// Relies on rustc_apfloat::ieee::Single: division, round to nearest even.
#[verifier::external_body]
pub(crate) fn float_div(a: u32, b: u32) -> (r: u32)
    ensures
        r == fdiv_bits(a, b),
{
    (Single::from_bits(a as u128) / Single::from_bits(b as u128)).value.to_bits() as u32
}

/// Relies on rustc_apfloat::Float::c_fmod: remainder with the sign of the
/// dividend, as the `%` operator computes it on floats.
#[verifier::external_body]
pub(crate) fn float_rem(a: u32, b: u32) -> (r: u32)
    ensures
        r == frem_bits(a, b),
{
    Single::from_bits(a as u128).c_fmod(Single::from_bits(b as u128)).value.to_bits() as u32
}

/// Relies on rustc_apfloat's PartialOrd: IEEE comparison, NaN unordered,
/// negative and positive zero equal.
#[verifier::external_body]
pub(crate) fn float_eq(a: u32, b: u32) -> (r: bool)
    ensures
        r == feq_bits(a, b),
{
    matches!(
        Single::from_bits(a as u128).partial_cmp(&Single::from_bits(b as u128)),
        Some(core::cmp::Ordering::Equal)
    )
}

/// Relies on rustc_apfloat's PartialOrd: IEEE less-than, false on NaN.
#[verifier::external_body]
pub(crate) fn float_lt(a: u32, b: u32) -> (r: bool)
    ensures
        r == flt_bits(a, b),
{
    matches!(
        Single::from_bits(a as u128).partial_cmp(&Single::from_bits(b as u128)),
        Some(core::cmp::Ordering::Less)
    )
}

/// Relies on rustc_apfloat's PartialOrd: IEEE less-or-equal, false on NaN.
#[verifier::external_body]
pub(crate) fn float_le(a: u32, b: u32) -> (r: bool)
    ensures
        r == fle_bits(a, b),
{
    matches!(
        Single::from_bits(a as u128).partial_cmp(&Single::from_bits(b as u128)),
        Some(core::cmp::Ordering::Less) | Some(core::cmp::Ordering::Equal)
    )
}

/// Relies on rustc_apfloat::Float::min: IEEE minNum, a NaN operand yields the
/// other operand.
#[verifier::external_body]
pub(crate) fn float_min(a: u32, b: u32) -> (r: u32)
    ensures
        r == fmin_bits(a, b),
{
    Single::from_bits(a as u128).min(Single::from_bits(b as u128)).to_bits() as u32
}

/// Relies on rustc_apfloat::Float::max: IEEE maxNum, a NaN operand yields the
/// other operand.
#[verifier::external_body]
pub(crate) fn float_max(a: u32, b: u32) -> (r: u32)
    ensures
        r == fmax_bits(a, b),
{
    Single::from_bits(a as u128).max(Single::from_bits(b as u128)).to_bits() as u32
}

/// Relies on rustc_apfloat::Float::round_to_integral, rounding toward zero.
#[verifier::external_body]
pub(crate) fn float_trunc(a: u32) -> (r: u32)
    ensures
        r == ftrunc_bits(a),
{
    Single::from_bits(a as u128).round_to_integral(Round::TowardZero).value.to_bits() as u32
}

/// Relies on rustc_apfloat::Float::round_to_integral, rounding toward
/// positive infinity.
#[verifier::external_body]
pub(crate) fn float_ceil(a: u32) -> (r: u32)
    ensures
        r == fceil_bits(a),
{
    Single::from_bits(a as u128).round_to_integral(Round::TowardPositive).value.to_bits() as u32
}

/// Relies on rustc_apfloat::Float::round_to_integral, rounding toward
/// negative infinity.
#[verifier::external_body]
pub(crate) fn float_floor(a: u32) -> (r: u32)
    ensures
        r == ffloor_bits(a),
{
    Single::from_bits(a as u128).round_to_integral(Round::TowardNegative).value.to_bits() as u32
}

/// Relies on rustc_apfloat::Float::from_i128: signed integer to float, round
/// to nearest even.
#[verifier::external_body]
pub(crate) fn float_of_i32(v: i32) -> (r: u32)
    ensures
        r == bits_of_i32(v),
{
    Single::from_i128(v as i128).value.to_bits() as u32
}

/// Relies on rustc_apfloat::Float::from_u128: unsigned integer to float,
/// round to nearest even. Integers up to 2^24 fit the 24-bit significand, so
/// the conversion is exact there and truncating back recovers the integer.
#[verifier::external_body]
pub(crate) fn float_of_u64(v: u64) -> (r: u32)
    ensures
        r == bits_of_u64(v),
        v <= 16777216 ==> u64_of_bits(r) == v,
{
    Single::from_u128(v as u128).value.to_bits() as u32
}

/// Relies on rustc_apfloat::Float::to_i128_r, rounding toward zero: the
/// result saturates at the i32 bounds and a NaN converts to zero, as the
/// `as i32` cast does on floats.
#[verifier::external_body]
pub(crate) fn float_to_i32(a: u32) -> (r: i32)
    ensures
        r == i32_of_bits(a),
{
    let mut exact = false;
    Single::from_bits(a as u128).to_i128_r(32, Round::TowardZero, &mut exact).value as i32
}

/// Relies on rustc_apfloat::Float::to_u128_r, rounding toward zero: the
/// result saturates at the u64 bounds and a NaN or negative value converts to
/// zero, as the `as u64` cast does on floats.
#[verifier::external_body]
pub(crate) fn float_to_u64(a: u32) -> (r: u64)
    ensures
        r == u64_of_bits(a),
{
    let mut exact = false;
    Single::from_bits(a as u128).to_u128_r(64, Round::TowardZero, &mut exact).value as u64
}

/// Relies on rustc_apfloat::Float::from_str_r: a decimal literal converts to
/// the nearest representable value, ties to even; text that is no decimal
/// number yields the zero pattern.
#[verifier::external_body]
pub(crate) fn float_of_decimal(s: &str) -> (r: u32)
    ensures
        r == bits_of_decimal(s@),
{
    match Single::from_str_r(s, Round::NearestTiesToEven) {
        Ok(sa) => sa.value.to_bits() as u32,
        Err(_) => 0,
    }
}

/// Whether the bit pattern encodes a NaN: exponent all ones, significand
/// nonzero.
pub open spec fn is_nan_bits(a: u32) -> bool {
    (a >> 23) & 0xff == 0xff && a & 0x7fffff != 0
}

/// Whether the bit pattern encodes an infinity: exponent all ones,
/// significand zero.
pub open spec fn is_inf_bits(a: u32) -> bool {
    (a >> 23) & 0xff == 0xff && a & 0x7fffff == 0
}

/// The bit pattern with the sign bit cleared: the absolute value.
pub open spec fn abs_bits(a: u32) -> u32 {
    a & 0x7fffffff
}

pub(crate) fn float_is_nan(a: u32) -> (r: bool)
    ensures
        r == is_nan_bits(a),
{
    (a >> 23) & 0xff == 0xff && a & 0x7fffff != 0
}

pub(crate) fn float_is_inf(a: u32) -> (r: bool)
    ensures
        r == is_inf_bits(a),
{
    (a >> 23) & 0xff == 0xff && a & 0x7fffff == 0
}

pub(crate) fn float_abs(a: u32) -> (r: u32)
    ensures
        r == abs_bits(a),
{
    a & 0x7fffffff
}

/// Host operations on 32-bit float bit patterns that no bit-exact software
/// implementation is available for here: the square root, exponential and
/// logarithm functions, and the decimal rendering used for debug output.
///
/// The methods carry no contracts; the library states what holds of a tick
/// whatever values an implementation returns. Hosts implement it with the
/// platform's native float type.
pub trait HostFloat {
    /// The square root of the value `a` encodes.
    fn sqrt(&mut self, a: u32) -> u32;

    /// The exponential function of the value `a` encodes.
    fn exp(&mut self, a: u32) -> u32;

    /// The logarithm of the value `arg` encodes, in the base `base` encodes.
    fn log(&mut self, arg: u32, base: u32) -> u32;

    /// The decimal text of the value `a` encodes.
    fn format(&mut self, a: u32) -> String;
}

} // verus!
