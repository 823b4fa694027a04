//! The activation functions. A network holds one of them and uses it in
//! every layer.

use crate::arithmetic::difference;
use crate::arithmetic::exponential;
use crate::arithmetic::larger;
use crate::arithmetic::lawful;
use crate::arithmetic::negation;
use crate::arithmetic::perform;
use crate::arithmetic::product;
use crate::arithmetic::quotient;
use crate::arithmetic::sum;
use crate::arithmetic::Operation;
use crate::number::is_positive;
use crate::number::positive_bits;
use crate::number::ONE;
use crate::number::TWO;
use crate::number::ZERO;
use vstd::prelude::*;

verus! {

/// The names by which an activation function is chosen.
#[allow(non_camel_case_types)]
#[derive(Clone, Copy, PartialEq, Eq, Debug, Structural)]
pub enum ActivationType {
    SIGMOID,
    TANH,
    RELU,
    SILU,
}

/// An activation function together with its derivative.
#[derive(Clone, Copy, PartialEq, Eq, Debug, Structural)]
pub enum Activation {
    Sigmoid,
    TanH,
    ReLU,
    SiLU,
}

/// `1 / (1 + e^-x)`
pub open spec fn sigmoid<F: Fn(Operation) -> u32>(unit: &F, x: u32) -> u32 {
    quotient(unit, ONE, sum(unit, ONE, exponential(unit, negation(unit, x))))
}

/// `a * (1 - a)` with `a = sigmoid(x)`
pub open spec fn sigmoid_slope<F: Fn(Operation) -> u32>(unit: &F, x: u32) -> u32 {
    let a = sigmoid(unit, x);
    product(unit, a, difference(unit, ONE, a))
}

/// `(e^2x - 1) / (e^2x + 1)`
pub open spec fn tanh<F: Fn(Operation) -> u32>(unit: &F, x: u32) -> u32 {
    let e2 = exponential(unit, product(unit, TWO, x));
    quotient(unit, difference(unit, e2, ONE), sum(unit, e2, ONE))
}

/// `1 - t * t` with `t = tanh(x)`
pub open spec fn tanh_slope<F: Fn(Operation) -> u32>(unit: &F, x: u32) -> u32 {
    let t = tanh(unit, x);
    difference(unit, ONE, product(unit, t, t))
}

/// `max(x, 0)`
pub open spec fn relu<F: Fn(Operation) -> u32>(unit: &F, x: u32) -> u32 {
    larger(unit, x, ZERO)
}

/// `1` where `x > 0`, else `0`
pub open spec fn relu_slope(x: u32) -> u32 {
    if is_positive(x) {
        ONE
    } else {
        ZERO
    }
}

/// `x * sigmoid(x)`
pub open spec fn silu<F: Fn(Operation) -> u32>(unit: &F, x: u32) -> u32 {
    product(unit, x, sigmoid(unit, x))
}

/// `x * s * (1 - s) + s` with `s = sigmoid(x)`
pub open spec fn silu_slope<F: Fn(Operation) -> u32>(unit: &F, x: u32) -> u32 {
    let s = sigmoid(unit, x);
    sum(unit, product(unit, product(unit, x, s), difference(unit, ONE, s)), s)
}

/// Computes the sigmoid of `x`.
fn sigmoid_of<F: Fn(Operation) -> u32>(unit: &F, x: u32) -> (a: u32)
    requires
        lawful(unit),
    ensures
        a == sigmoid(unit, x),
{
    let minus_x = perform(unit, Operation::Neg(x));
    let e = perform(unit, Operation::Exp(minus_x));
    let d = perform(unit, Operation::Add(ONE, e));
    perform(unit, Operation::Div(ONE, d))
}

/// Computes the hyperbolic tangent of `x`.
fn tanh_of<F: Fn(Operation) -> u32>(unit: &F, x: u32) -> (t: u32)
    requires
        lawful(unit),
    ensures
        t == tanh(unit, x),
{
    let twice = perform(unit, Operation::Mul(TWO, x));
    let e2 = perform(unit, Operation::Exp(twice));
    let above = perform(unit, Operation::Sub(e2, ONE));
    let below = perform(unit, Operation::Add(e2, ONE));
    perform(unit, Operation::Div(above, below))
}

impl Activation {
    /// The value of the function at `input`.
    pub open spec fn activated<F: Fn(Operation) -> u32>(self, unit: &F, input: u32) -> u32 {
        match self {
            Activation::Sigmoid => sigmoid(unit, input),
            Activation::TanH => tanh(unit, input),
            Activation::ReLU => relu(unit, input),
            Activation::SiLU => silu(unit, input),
        }
    }

    /// The value of the function's derivative at `input`.
    pub open spec fn slope<F: Fn(Operation) -> u32>(self, unit: &F, input: u32) -> u32 {
        match self {
            Activation::Sigmoid => sigmoid_slope(unit, input),
            Activation::TanH => tanh_slope(unit, input),
            Activation::ReLU => relu_slope(input),
            Activation::SiLU => silu_slope(unit, input),
        }
    }

    /// Computes the value of the function at `input`.
    pub fn activate<F: Fn(Operation) -> u32>(&self, input: u32, unit: &F) -> (output: u32)
        requires
            lawful(unit),
        ensures
            output == self.activated(unit, input),
    {
        match self {
            Activation::Sigmoid => sigmoid_of(unit, input),
            Activation::TanH => tanh_of(unit, input),
            Activation::ReLU => perform(unit, Operation::Max(input, ZERO)),
            Activation::SiLU => {
                let s = sigmoid_of(unit, input);
                perform(unit, Operation::Mul(input, s))
            },
        }
    }

    /// Computes the value of the function's derivative at `input`.
    pub fn derivative<F: Fn(Operation) -> u32>(&self, input: u32, unit: &F) -> (output: u32)
        requires
            lawful(unit),
        ensures
            output == self.slope(unit, input),
    {
        match self {
            Activation::Sigmoid => {
                let a = sigmoid_of(unit, input);
                let rest = perform(unit, Operation::Sub(ONE, a));
                perform(unit, Operation::Mul(a, rest))
            },
            Activation::TanH => {
                let t = tanh_of(unit, input);
                let square = perform(unit, Operation::Mul(t, t));
                perform(unit, Operation::Sub(ONE, square))
            },
            Activation::ReLU => {
                if positive_bits(input) {
                    ONE
                } else {
                    ZERO
                }
            },
            Activation::SiLU => {
                let s = sigmoid_of(unit, input);
                let scaled = perform(unit, Operation::Mul(input, s));
                let rest = perform(unit, Operation::Sub(ONE, s));
                let curved = perform(unit, Operation::Mul(scaled, rest));
                perform(unit, Operation::Add(curved, s))
            },
        }
    }
}

/// The place where an activation function is looked up by its name.
pub struct Activations;

impl Activations {
    /// The activation function that goes by the given name.
    pub open spec fn named(activation_type: ActivationType) -> Activation {
        match activation_type {
            ActivationType::SIGMOID => Activation::Sigmoid,
            ActivationType::TANH => Activation::TanH,
            ActivationType::RELU => Activation::ReLU,
            ActivationType::SILU => Activation::SiLU,
        }
    }

    /// Looks up the activation function that goes by the given name.
    pub fn get_activation(activation_type: &ActivationType) -> (activation: Activation)
        ensures
            activation == Self::named(*activation_type),
    {
        match activation_type {
            ActivationType::SIGMOID => Activation::Sigmoid,
            ActivationType::TANH => Activation::TanH,
            ActivationType::RELU => Activation::ReLU,
            ActivationType::SILU => Activation::SiLU,
        }
    }
}

} // verus!
