//! The arithmetic unit: the one place where numbers are computed.
//!
//! The library never interprets the result of an operation. It only asks
//! that the unit answers every operation and that it answers the same
//! operation in the same way each time.
//!
//! Nothing is clamped on the way: where an operation overflows, the
//! infinity or NaN that the unit returns is carried on like any other
//! result.

use vstd::prelude::*;

verus! {

/// One request to the arithmetic unit. Operands and results are
/// single-precision bit patterns.
#[derive(Clone, Copy, Debug)]
pub enum Operation {
    /// `a + b`
    Add(u32, u32),
    /// `a - b`
    Sub(u32, u32),
    /// `a * b`
    Mul(u32, u32),
    /// `a / b`
    Div(u32, u32),
    /// The larger of `a` and `b`.
    Max(u32, u32),
    /// `-a`
    Neg(u32),
    /// `e` raised to the power `a`.
    Exp(u32),
    /// `a` raised to the power `b`.
    Pow(u32, u32),
    /// The number nearest to an unsigned integer.
    FromInt(u64),
}

/// A unit is lawful when it accepts every operation and is a function of
/// the operation alone.
pub open spec fn lawful<F: Fn(Operation) -> u32>(unit: &F) -> bool {
    &&& forall|op: Operation| unit.requires((op,))
    &&& forall|op: Operation, first: u32, second: u32|
        unit.ensures((op,), first) && unit.ensures((op,), second) ==> first == second
}

/// The result that a lawful unit gives for an operation.
pub open spec fn value<F: Fn(Operation) -> u32>(unit: &F, op: Operation) -> u32 {
    choose|result: u32| unit.ensures((op,), result)
}

/// What the unit gives for `a + b`.
pub open spec fn sum<F: Fn(Operation) -> u32>(unit: &F, a: u32, b: u32) -> u32 {
    value(unit, Operation::Add(a, b))
}

/// What the unit gives for `a - b`.
pub open spec fn difference<F: Fn(Operation) -> u32>(unit: &F, a: u32, b: u32) -> u32 {
    value(unit, Operation::Sub(a, b))
}

/// What the unit gives for `a * b`.
pub open spec fn product<F: Fn(Operation) -> u32>(unit: &F, a: u32, b: u32) -> u32 {
    value(unit, Operation::Mul(a, b))
}

/// What the unit gives for `a / b`.
pub open spec fn quotient<F: Fn(Operation) -> u32>(unit: &F, a: u32, b: u32) -> u32 {
    value(unit, Operation::Div(a, b))
}

/// What the unit gives for the larger of `a` and `b`.
pub open spec fn larger<F: Fn(Operation) -> u32>(unit: &F, a: u32, b: u32) -> u32 {
    value(unit, Operation::Max(a, b))
}

/// What the unit gives for `-a`.
pub open spec fn negation<F: Fn(Operation) -> u32>(unit: &F, a: u32) -> u32 {
    value(unit, Operation::Neg(a))
}

/// What the unit gives for `e` raised to the power `a`.
pub open spec fn exponential<F: Fn(Operation) -> u32>(unit: &F, a: u32) -> u32 {
    value(unit, Operation::Exp(a))
}

/// What the unit gives for `a` raised to the power `b`.
pub open spec fn power<F: Fn(Operation) -> u32>(unit: &F, a: u32, b: u32) -> u32 {
    value(unit, Operation::Pow(a, b))
}

/// What the unit gives for the number nearest to `n`.
pub open spec fn from_int<F: Fn(Operation) -> u32>(unit: &F, n: u64) -> u32 {
    value(unit, Operation::FromInt(n))
}

/// Hands one operation to the unit.
pub fn perform<F: Fn(Operation) -> u32>(unit: &F, op: Operation) -> (result: u32)
    requires
        lawful(unit),
    ensures
        result == value(unit, op),
        unit.ensures((op,), result),
{
    unit(op)
}

} // verus!
