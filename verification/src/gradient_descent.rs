//! Gradient descent by finite differences on one curve with one input:
//! the training step of the network in its smallest form.

use crate::arithmetic::difference;
use crate::arithmetic::lawful;
use crate::arithmetic::perform;
use crate::arithmetic::power;
use crate::arithmetic::product;
use crate::arithmetic::sum;
use crate::arithmetic::Operation;
use crate::layer::stepped;
use crate::number::TWO;
use crate::training::finite_difference;
use vstd::prelude::*;

verus! {

/// The bit pattern of `0.1`.
pub const TENTH: u32 = 0x3DCC_CCCD;

/// The bit pattern of `0.2`.
pub const FIFTH: u32 = 0x3E4C_CCCD;

/// The bit pattern of `3.0`.
pub const THREE: u32 = 0x4040_0000;

/// The bit pattern of `4.0`.
pub const FOUR: u32 = 0x4080_0000;

/// The bit pattern of `2.3`, the learn rate of a new descent.
pub const FIRST_LEARN_RATE: u32 = 0x4013_3333;

/// The bit pattern of `0.0001`, the step width of a new descent.
pub const FIRST_H: u32 = 0x38D1_B717;

/// The curve `0.2 * x^4 + 0.1 * x^3 - x^2 + 2`, added up from left to
/// right.
pub open spec fn curve<F: Fn(Operation) -> u32>(unit: &F, x: u32) -> u32 {
    let fourth = product(unit, FIFTH, power(unit, x, FOUR));
    let third = product(unit, TENTH, power(unit, x, THREE));
    let second = power(unit, x, TWO);
    sum(unit, difference(unit, sum(unit, fourth, third), second), TWO)
}

/// The slope of the curve at `x`, estimated over a step of width `h`.
pub open spec fn curve_slope<F: Fn(Operation) -> u32>(unit: &F, x: u32, h: u32) -> u32 {
    finite_difference(unit, curve(unit, sum(unit, x, h)), curve(unit, x), h)
}

/// The state of a descent: where it stands, how it steps, and where it
/// has been.
pub struct GradientDescent {
    pub input_value: u32,
    pub learn_rate: u32,
    pub h: u32,
    pub past_values: Vec<u32>,
}

impl GradientDescent {
    /// The bit pattern of `0.05`, by which a caller raises or lowers the
    /// learn rate.
    pub const LEARN_RATE_STEP: u32 = 0x3D4C_CCCD;

    /// The bit pattern of `10.0`, by which a caller scales the step width.
    pub const H_FACTOR: u32 = 0x4120_0000;

    /// A descent that starts at the given input.
    pub fn new(random_value: u32) -> (descent: Self)
        ensures
            descent.input_value == random_value,
            descent.learn_rate == FIRST_LEARN_RATE,
            descent.h == FIRST_H,
            descent.past_values@ == Seq::<u32>::empty(),
    {
        GradientDescent {
            input_value: random_value,
            learn_rate: FIRST_LEARN_RATE,
            h: FIRST_H,
            past_values: Vec::new(),
        }
    }

    /// The height of the curve at `x`.
    pub fn function<F: Fn(Operation) -> u32>(x: u32, unit: &F) -> (y: u32)
        requires
            lawful(unit),
        ensures
            y == curve(unit, x),
    {
        let x4 = perform(unit, Operation::Pow(x, FOUR));
        let fourth = perform(unit, Operation::Mul(FIFTH, x4));
        let x3 = perform(unit, Operation::Pow(x, THREE));
        let third = perform(unit, Operation::Mul(TENTH, x3));
        let second = perform(unit, Operation::Pow(x, TWO));
        let upper = perform(unit, Operation::Add(fourth, third));
        let lower = perform(unit, Operation::Sub(upper, second));
        perform(unit, Operation::Add(lower, TWO))
    }

    /// Runs one step of the descent: the input is remembered, then moved
    /// against the estimated slope of the curve, times the learn rate.
    pub fn learn<F: Fn(Operation) -> u32>(&mut self, unit: &F)
        requires
            lawful(unit),
        ensures
            final(self).past_values@ == old(self).past_values@.push(old(self).input_value),
            final(self).input_value == stepped(
                unit,
                old(self).input_value,
                curve_slope(unit, old(self).input_value, old(self).h),
                old(self).learn_rate,
            ),
            final(self).learn_rate == old(self).learn_rate,
            final(self).h == old(self).h,
    {
        self.past_values.push(self.input_value);

        let ahead = perform(unit, Operation::Add(self.input_value, self.h));
        let height_ahead = Self::function(ahead, unit);
        let height = Self::function(self.input_value, unit);
        let delta_output = perform(unit, Operation::Sub(height_ahead, height));
        let slope = perform(unit, Operation::Div(delta_output, self.h));

        let scaled = perform(unit, Operation::Mul(slope, self.learn_rate));
        self.input_value = perform(unit, Operation::Sub(self.input_value, scaled));
    }
}

} // verus!
