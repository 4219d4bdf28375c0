//! Arithmetic on numbers held as the bit pattern of an IEEE-754 double.
//!
//! The evaluator stores a number as its 64 bit pattern, so its own logic is
//! over plain integers. The four operations are computed by rustc_apfloat's
//! software implementation of IEEE-754 binary64 arithmetic, rounding to
//! nearest, ties to even — the same result for the same operand bits on
//! every machine. Division by zero follows IEEE semantics (infinities, NaN),
//! never an error.

use vstd::prelude::*;

use rustc_apfloat::Float;

verus! {

use crate::ast::Operator;

/// The bit pattern of the IEEE-754 double sum of the doubles with bit
/// patterns `a` and `b`.
pub uninterp spec fn add_bits(a: u64, b: u64) -> u64;

/// The bit pattern of the IEEE-754 double difference of the doubles with
/// bit patterns `a` and `b`.
pub uninterp spec fn sub_bits(a: u64, b: u64) -> u64;

/// The bit pattern of the IEEE-754 double product of the doubles with bit
/// patterns `a` and `b`.
pub uninterp spec fn mul_bits(a: u64, b: u64) -> u64;

/// The bit pattern of the IEEE-754 double quotient of the doubles with bit
/// patterns `a` and `b`.
pub uninterp spec fn div_bits(a: u64, b: u64) -> u64;

/// The bit pattern of the result of applying `op` to the doubles with bit
/// patterns `a` and `b`.
pub open spec fn op_bits(op: Operator, a: u64, b: u64) -> u64 {
    match op {
        Operator::Add => add_bits(a, b),
        Operator::Sub => sub_bits(a, b),
        Operator::Mul => mul_bits(a, b),
        Operator::Div => div_bits(a, b),
    }
}

/// Relies on rustc_apfloat's `ieee::Double` addition: IEEE-754 binary64,
/// round to nearest, ties to even; the result depends on the operand bits
/// alone.
#[verifier::external_body]
fn apf_add(a: u64, b: u64) -> (r: u64)
    ensures
        r == add_bits(a, b),
{
    let x = rustc_apfloat::ieee::Double::from_bits(a as u128);
    let y = rustc_apfloat::ieee::Double::from_bits(b as u128);
    (x + y).value.to_bits() as u64
}

/// Relies on rustc_apfloat's `ieee::Double` subtraction: IEEE-754 binary64,
/// round to nearest, ties to even; the result depends on the operand bits
/// alone.
#[verifier::external_body]
fn apf_sub(a: u64, b: u64) -> (r: u64)
    ensures
        r == sub_bits(a, b),
{
    let x = rustc_apfloat::ieee::Double::from_bits(a as u128);
    let y = rustc_apfloat::ieee::Double::from_bits(b as u128);
    (x - y).value.to_bits() as u64
}

/// Relies on rustc_apfloat's `ieee::Double` multiplication: IEEE-754
/// binary64, round to nearest, ties to even; the result depends on the
/// operand bits alone.
#[verifier::external_body]
fn apf_mul(a: u64, b: u64) -> (r: u64)
    ensures
        r == mul_bits(a, b),
{
    let x = rustc_apfloat::ieee::Double::from_bits(a as u128);
    let y = rustc_apfloat::ieee::Double::from_bits(b as u128);
    (x * y).value.to_bits() as u64
}

/// Relies on rustc_apfloat's `ieee::Double` division: IEEE-754 binary64,
/// round to nearest, ties to even, infinities and NaN on division by zero;
/// the result depends on the operand bits alone.
#[verifier::external_body]
fn apf_div(a: u64, b: u64) -> (r: u64)
    ensures
        r == div_bits(a, b),
{
    let x = rustc_apfloat::ieee::Double::from_bits(a as u128);
    let y = rustc_apfloat::ieee::Double::from_bits(b as u128);
    (x / y).value.to_bits() as u64
}

/// Applies `op` to two numbers given as IEEE-754 double bit patterns.
pub fn apply_operator(op: Operator, a: u64, b: u64) -> (r: u64)
    ensures
        r == op_bits(op, a, b),
{
    match op {
        Operator::Add => apf_add(a, b),
        Operator::Sub => apf_sub(a, b),
        Operator::Mul => apf_mul(a, b),
        Operator::Div => apf_div(a, b),
    }
}

} // verus!
