//! One layer of the network: its weights and biases, the gradients that a
//! training step estimates for them, and the outputs of its last pass.

use crate::activation::Activation;
use crate::arithmetic::difference;
use crate::arithmetic::from_int;
use crate::arithmetic::lawful;
use crate::arithmetic::negation;
use crate::arithmetic::perform;
use crate::arithmetic::product;
use crate::arithmetic::quotient;
use crate::arithmetic::sum;
use crate::arithmetic::Operation;
use crate::error::NetworkError;
use crate::number::TWO;
use crate::number::ZERO;
use crate::random::nth_state;
use crate::random::random_numbers;
use crate::random::RandomNumbers;
use vstd::prelude::*;

verus! {

/// New weights and biases lie between `-WEIGHT_BOUNDARY` and
/// `WEIGHT_BOUNDARY`.
pub const WEIGHT_BOUNDARY: u32 = TWO;

/// The weights and biases of a layer, or the gradients of both: one row of
/// weights for each input node, one column and one bias for each output
/// node.
pub struct Parameters {
    pub weights: Seq<Seq<u32>>,
    pub biases: Seq<u32>,
}

impl Parameters {
    /// Whether there are `num_nodes_in` rows of `num_nodes_out` weights
    /// and `num_nodes_out` biases.
    pub open spec fn has_shape(self, num_nodes_in: nat, num_nodes_out: nat) -> bool {
        &&& self.weights.len() == num_nodes_in
        &&& forall|i: int| 0 <= i < num_nodes_in ==> (#[trigger] self.weights[i]).len() == num_nodes_out
        &&& self.biases.len() == num_nodes_out
    }

    /// Parameters of the given shape that are zero throughout.
    pub open spec fn zero(num_nodes_in: nat, num_nodes_out: nat) -> Parameters {
        Parameters {
            weights: Seq::new(num_nodes_in, |i: int| Seq::new(num_nodes_out, |o: int| ZERO)),
            biases: Seq::new(num_nodes_out, |o: int| ZERO),
        }
    }
}

/// The rows of a matrix.
pub open spec fn rows(matrix: Seq<Vec<u32>>) -> Seq<Seq<u32>> {
    Seq::new(matrix.len(), |i: int| matrix[i]@)
}

/// A matrix with one entry replaced.
pub open spec fn with_entry(matrix: Seq<Seq<u32>>, i: int, o: int, value: u32) -> Seq<Seq<u32>> {
    matrix.update(i, matrix[i].update(o, value))
}

/// Replaces one entry of a matrix.
pub(crate) fn set_entry(matrix: &mut Vec<Vec<u32>>, i: usize, o: usize, value: u32)
    requires
        i < old(matrix)@.len(),
        o < old(matrix)@[i as int]@.len(),
    ensures
        rows(final(matrix)@) == with_entry(rows(old(matrix)@), i as int, o as int, value),
{
    matrix[i][o] = value;
    assert(rows(matrix@) =~= with_entry(rows(old(matrix)@), i as int, o as int, value));
}

/// Whether a matrix has the given numbers of rows and columns.
fn shaped(matrix: &Vec<Vec<u32>>, num_rows: usize, num_columns: usize) -> (shaped: bool)
    ensures
        shaped == (rows(matrix@).len() == num_rows && forall|i: int|
            0 <= i < num_rows ==> (#[trigger] rows(matrix@)[i]).len() == num_columns),
{
    if matrix.len() != num_rows {
        return false;
    }
    let mut i: usize = 0;
    while i < num_rows
        invariant
            matrix@.len() == num_rows,
            i <= num_rows,
            forall|k: int| 0 <= k < i ==> (#[trigger] rows(matrix@)[k]).len() == num_columns,
        decreases num_rows - i,
    {
        if matrix[i].len() != num_columns {
            assert(rows(matrix@)[i as int].len() != num_columns);
            return false;
        }
        i += 1;
    }
    true
}

/// A random draw mapped linearly from the range of `u64` into the range
/// from `-WEIGHT_BOUNDARY` to `WEIGHT_BOUNDARY`:
/// `min + draw / u64::MAX * (max - min)`.
pub open spec fn remapped<F: Fn(Operation) -> u32>(unit: &F, draw: u64) -> u32 {
    let min = negation(unit, WEIGHT_BOUNDARY);
    let max = WEIGHT_BOUNDARY;
    let share = quotient(unit, from_int(unit, draw), from_int(unit, u64::MAX));
    sum(unit, min, product(unit, share, difference(unit, max, min)))
}

/// The parameters that a new layer gets from a stream that starts at
/// `seed`: the weights row by row from the first draws, then the biases.
pub open spec fn initial_parameters<F: Fn(Operation) -> u32>(
    unit: &F,
    seed: u64,
    num_nodes_in: nat,
    num_nodes_out: nat,
) -> Parameters {
    Parameters {
        weights: Seq::new(
            num_nodes_in,
            |i: int|
                Seq::new(
                    num_nodes_out,
                    |o: int| remapped(unit, nth_state(seed, (i * num_nodes_out + o + 1) as nat)),
                ),
        ),
        biases: Seq::new(
            num_nodes_out,
            |o: int| remapped(unit, nth_state(seed, (num_nodes_in * num_nodes_out + o + 1) as nat)),
        ),
    }
}

/// The weighted input of output node `node_out` after the first `count`
/// inputs: the node's bias, to which the products of input and weight are
/// added one by one.
pub open spec fn weighted_input<F: Fn(Operation) -> u32>(
    unit: &F,
    parameters: Parameters,
    inputs: Seq<u32>,
    node_out: int,
    count: nat,
) -> u32
    decreases count,
{
    if count == 0 {
        parameters.biases[node_out]
    } else {
        sum(
            unit,
            weighted_input(unit, parameters, inputs, node_out, (count - 1) as nat),
            product(unit, inputs[count - 1], parameters.weights[count - 1][node_out]),
        )
    }
}

/// The outputs of a layer: the activation of each node's weighted input.
pub open spec fn layer_outputs<F: Fn(Operation) -> u32>(
    unit: &F,
    activation: Activation,
    parameters: Parameters,
    inputs: Seq<u32>,
) -> Seq<u32> {
    Seq::new(
        parameters.biases.len(),
        |o: int| activation.activated(unit, weighted_input(unit, parameters, inputs, o, inputs.len())),
    )
}

/// `(output - expected)^2`
pub open spec fn squared_error<F: Fn(Operation) -> u32>(unit: &F, output: u32, expected: u32) -> u32 {
    let error = difference(unit, output, expected);
    product(unit, error, error)
}

/// `2 * (output - expected)`
pub open spec fn squared_error_slope<F: Fn(Operation) -> u32>(
    unit: &F,
    output: u32,
    expected: u32,
) -> u32 {
    product(unit, TWO, difference(unit, output, expected))
}

/// Squares the error of one output.
pub(crate) fn error_squared<F: Fn(Operation) -> u32>(output: u32, expected: u32, unit: &F) -> (cost:
    u32)
    requires
        lawful(unit),
    ensures
        cost == squared_error(unit, output, expected),
{
    let error = perform(unit, Operation::Sub(output, expected));
    perform(unit, Operation::Mul(error, error))
}

/// One step against a gradient: `value - gradient * learn_rate`.
pub open spec fn stepped<F: Fn(Operation) -> u32>(
    unit: &F,
    value: u32,
    gradient: u32,
    learn_rate: u32,
) -> u32 {
    difference(unit, value, product(unit, gradient, learn_rate))
}

/// Every parameter after one step against its gradient.
pub open spec fn descended<F: Fn(Operation) -> u32>(
    unit: &F,
    parameters: Parameters,
    gradients: Parameters,
    learn_rate: u32,
) -> Parameters {
    Parameters {
        weights: Seq::new(
            parameters.weights.len(),
            |i: int|
                Seq::new(
                    parameters.weights[i].len(),
                    |o: int| stepped(unit, parameters.weights[i][o], gradients.weights[i][o], learn_rate),
                ),
        ),
        biases: Seq::new(
            parameters.biases.len(),
            |o: int| stepped(unit, parameters.biases[o], gradients.biases[o], learn_rate),
        ),
    }
}

/// A layer between `num_nodes_in` inputs and `num_nodes_out` outputs.
#[derive(Clone, Debug)]
pub struct Layer {
    pub num_nodes_in: usize,
    pub num_nodes_out: usize,
    pub cost_gradient_weights: Vec<Vec<u32>>,
    pub cost_gradient_biases: Vec<u32>,
    pub weights: Vec<Vec<u32>>,
    pub biases: Vec<u32>,
    pub activations: Vec<u32>,
}

impl Layer {
    /// The weights and biases of the layer.
    pub open spec fn parameters(&self) -> Parameters {
        Parameters { weights: rows(self.weights@), biases: self.biases@ }
    }

    /// The gradients that the layer keeps for its weights and biases.
    pub open spec fn gradients(&self) -> Parameters {
        Parameters { weights: rows(self.cost_gradient_weights@), biases: self.cost_gradient_biases@ }
    }

    /// The shapes that a layer keeps from its creation on.
    pub open spec fn wf(&self) -> bool {
        &&& self.parameters().has_shape(self.num_nodes_in as nat, self.num_nodes_out as nat)
        &&& self.gradients().has_shape(self.num_nodes_in as nat, self.num_nodes_out as nat)
        &&& self.activations@.len() == self.num_nodes_out
    }

    /// What holds of a layer that has just been created: its parameters
    /// are those that some random stream gives, its gradients and kept
    /// outputs are zero.
    pub open spec fn fresh<F: Fn(Operation) -> u32>(&self, unit: &F) -> bool {
        &&& self.wf()
        &&& exists|seed: u64|
            self.parameters() == initial_parameters(
                unit,
                seed,
                self.num_nodes_in as nat,
                self.num_nodes_out as nat,
            )
        &&& self.gradients() == Parameters::zero(self.num_nodes_in as nat, self.num_nodes_out as nat)
        &&& self.activations@ == Seq::new(self.num_nodes_out as nat, |o: int| ZERO)
    }

    /// Whether two layers differ at most in the outputs of their last pass.
    pub open spec fn same_but_activations(&self, other: &Layer) -> bool {
        &&& self.num_nodes_in == other.num_nodes_in
        &&& self.num_nodes_out == other.num_nodes_out
        &&& self.cost_gradient_weights == other.cost_gradient_weights
        &&& self.cost_gradient_biases == other.cost_gradient_biases
        &&& self.weights == other.weights
        &&& self.biases == other.biases
    }

    /// Whether the layer has the shapes that `wf` asks for.
    pub fn is_well_formed(&self) -> (well_formed: bool)
        ensures
            well_formed == self.wf(),
    {
        shaped(&self.weights, self.num_nodes_in, self.num_nodes_out) && self.biases.len()
            == self.num_nodes_out && shaped(
            &self.cost_gradient_weights,
            self.num_nodes_in,
            self.num_nodes_out,
        ) && self.cost_gradient_biases.len() == self.num_nodes_out && self.activations.len()
            == self.num_nodes_out
    }

    /// Maps one random draw into the range of new parameters.
    pub fn remap<F: Fn(Operation) -> u32>(draw: u64, unit: &F) -> (value: u32)
        requires
            lawful(unit),
        ensures
            value == remapped(unit, draw),
    {
        let min = perform(unit, Operation::Neg(WEIGHT_BOUNDARY));
        let max = WEIGHT_BOUNDARY;
        let drawn = perform(unit, Operation::FromInt(draw));
        let most = perform(unit, Operation::FromInt(u64::MAX));
        let share = perform(unit, Operation::Div(drawn, most));
        let width = perform(unit, Operation::Sub(max, min));
        let offset = perform(unit, Operation::Mul(share, width));
        perform(unit, Operation::Add(min, offset))
    }

    /// Creates a layer whose parameters are drawn from a fresh random
    /// stream.
    pub fn new<F: Fn(Operation) -> u32>(num_nodes_in: usize, num_nodes_out: usize, unit: &F) -> (layer:
        Self)
        requires
            lawful(unit),
        ensures
            layer.num_nodes_in == num_nodes_in,
            layer.num_nodes_out == num_nodes_out,
            layer.fresh(unit),
    {
        let mut source = random_numbers();
        Self::from_source(num_nodes_in, num_nodes_out, &mut source, unit)
    }

    /// Creates a layer whose parameters are drawn from the given stream:
    /// the weights row by row, then the biases. Gradients and outputs
    /// start at zero.
    pub fn from_source<F: Fn(Operation) -> u32>(
        num_nodes_in: usize,
        num_nodes_out: usize,
        source: &mut RandomNumbers,
        unit: &F,
    ) -> (layer: Self)
        requires
            lawful(unit),
        ensures
            layer.wf(),
            layer.num_nodes_in == num_nodes_in,
            layer.num_nodes_out == num_nodes_out,
            layer.parameters() == initial_parameters(
                unit,
                old(source).state(),
                num_nodes_in as nat,
                num_nodes_out as nat,
            ),
            layer.gradients() == Parameters::zero(num_nodes_in as nat, num_nodes_out as nat),
            layer.activations@ == Seq::new(num_nodes_out as nat, |o: int| ZERO),
            final(source).state() == nth_state(
                old(source).state(),
                (num_nodes_in * num_nodes_out + num_nodes_out) as nat,
            ),
    {
        let ghost seed = source.state();
        let cost_gradient_weights = Self::zero_matrix(num_nodes_in, num_nodes_out);
        let cost_gradient_biases = Self::zero_vector(num_nodes_out);
        let weights = Self::initialize_random_weights(num_nodes_in, num_nodes_out, source, unit);
        let ghost drawn: nat = (num_nodes_in * num_nodes_out) as nat;
        let biases = Self::draw_row(num_nodes_out, source, unit, Ghost(seed), Ghost(drawn));
        let activations = Self::zero_vector(num_nodes_out);
        let layer = Layer {
            num_nodes_in,
            num_nodes_out,
            cost_gradient_weights,
            cost_gradient_biases,
            weights,
            biases,
            activations,
        };
        proof {
            let expected = initial_parameters(unit, seed, num_nodes_in as nat, num_nodes_out as nat);
            assert(layer.parameters().biases =~= expected.biases);
            assert(layer.parameters().weights =~~= expected.weights);
            let zero = Parameters::zero(num_nodes_in as nat, num_nodes_out as nat);
            assert(layer.gradients().weights =~~= zero.weights);
            assert(layer.gradients().biases =~= zero.biases);
        }
        layer
    }

    /// A vector of zeros.
    fn zero_vector(len: usize) -> (vector: Vec<u32>)
        ensures
            vector@ == Seq::new(len as nat, |o: int| ZERO),
    {
        let mut vector: Vec<u32> = Vec::new();
        let mut o: usize = 0;
        while o < len
            invariant
                o <= len,
                vector@.len() == o,
                forall|k: int| 0 <= k < o ==> vector@[k] == ZERO,
            decreases len - o,
        {
            vector.push(ZERO);
            o += 1;
        }
        assert(vector@ =~= Seq::new(len as nat, |o: int| ZERO));
        vector
    }

    /// A matrix of zeros.
    fn zero_matrix(num_rows: usize, num_columns: usize) -> (matrix: Vec<Vec<u32>>)
        ensures
            matrix@.len() == num_rows,
            forall|i: int|
                0 <= i < num_rows ==> (#[trigger] matrix@[i])@ == Seq::new(
                    num_columns as nat,
                    |o: int| ZERO,
                ),
    {
        let mut matrix: Vec<Vec<u32>> = Vec::new();
        let mut i: usize = 0;
        while i < num_rows
            invariant
                i <= num_rows,
                matrix@.len() == i,
                forall|k: int|
                    0 <= k < i ==> (#[trigger] matrix@[k])@ == Seq::new(
                        num_columns as nat,
                        |o: int| ZERO,
                    ),
            decreases num_rows - i,
        {
            matrix.push(Self::zero_vector(num_columns));
            i += 1;
        }
        matrix
    }

    /// Draws `len` values in a row; `drawn` values have left the stream
    /// since it stood at `seed`.
    fn draw_row<F: Fn(Operation) -> u32>(
        len: usize,
        source: &mut RandomNumbers,
        unit: &F,
        Ghost(seed): Ghost<u64>,
        Ghost(drawn): Ghost<nat>,
    ) -> (row: Vec<u32>)
        requires
            lawful(unit),
            old(source).state() == nth_state(seed, drawn),
        ensures
            row@.len() == len,
            forall|o: int|
                0 <= o < len ==> row@[o] == remapped(unit, nth_state(seed, (drawn + o + 1) as nat)),
            final(source).state() == nth_state(seed, (drawn + len) as nat),
    {
        let mut row: Vec<u32> = Vec::new();
        let mut o: usize = 0;
        while o < len
            invariant
                lawful(unit),
                o <= len,
                row@.len() == o,
                source.state() == nth_state(seed, (drawn + o) as nat),
                forall|k: int|
                    0 <= k < o ==> row@[k] == remapped(unit, nth_state(seed, (drawn + k + 1) as nat)),
            decreases len - o,
        {
            let draw = source.next().unwrap();
            row.push(Self::remap(draw, unit));
            o += 1;
        }
        row
    }

    /// Draws a matrix of weights, row by row.
    fn initialize_random_weights<F: Fn(Operation) -> u32>(
        num_nodes_in: usize,
        num_nodes_out: usize,
        source: &mut RandomNumbers,
        unit: &F,
    ) -> (weights: Vec<Vec<u32>>)
        requires
            lawful(unit),
        ensures
            weights@.len() == num_nodes_in,
            forall|i: int| 0 <= i < num_nodes_in ==> (#[trigger] weights@[i])@.len() == num_nodes_out,
            forall|i: int, o: int|
                0 <= i < num_nodes_in && 0 <= o < num_nodes_out ==> weights@[i]@[o] == remapped(
                    unit,
                    nth_state(old(source).state(), (i * num_nodes_out + o + 1) as nat),
                ),
            final(source).state() == nth_state(
                old(source).state(),
                (num_nodes_in * num_nodes_out) as nat,
            ),
    {
        let ghost seed = source.state();
        let mut weights: Vec<Vec<u32>> = Vec::new();
        let mut i: usize = 0;
        while i < num_nodes_in
            invariant
                lawful(unit),
                i <= num_nodes_in,
                weights@.len() == i,
                source.state() == nth_state(seed, (i * num_nodes_out) as nat),
                forall|k: int| 0 <= k < i ==> (#[trigger] weights@[k])@.len() == num_nodes_out,
                forall|k: int, o: int|
                    0 <= k < i && 0 <= o < num_nodes_out ==> weights@[k]@[o] == remapped(
                        unit,
                        nth_state(seed, (k * num_nodes_out + o + 1) as nat),
                    ),
            decreases num_nodes_in - i,
        {
            let ghost drawn: nat = (i * num_nodes_out) as nat;
            let current_weights = Self::draw_row(num_nodes_out, source, unit, Ghost(seed), Ghost(drawn));
            weights.push(current_weights);
            assert((i + 1) * num_nodes_out == i * num_nodes_out + num_nodes_out) by (nonlinear_arith);
            i += 1;
        }
        weights
    }

    /// Moves every weight and bias one step against its gradient.
    pub fn apply_gradients<F: Fn(Operation) -> u32>(&mut self, learn_rate: u32, unit: &F)
        requires
            old(self).wf(),
            lawful(unit),
        ensures
            final(self).wf(),
            final(self).num_nodes_in == old(self).num_nodes_in,
            final(self).num_nodes_out == old(self).num_nodes_out,
            final(self).parameters() == descended(
                unit,
                old(self).parameters(),
                old(self).gradients(),
                learn_rate,
            ),
            final(self).gradients() == old(self).gradients(),
            final(self).activations == old(self).activations,
    {
        let ghost before = self.parameters();
        let ghost gradients = self.gradients();
        let mut node_out: usize = 0;
        while node_out < self.num_nodes_out
            invariant
                lawful(unit),
                self.wf(),
                before == old(self).parameters(),
                before.has_shape(self.num_nodes_in as nat, self.num_nodes_out as nat),
                gradients == self.gradients(),
                self.num_nodes_in == old(self).num_nodes_in,
                self.num_nodes_out == old(self).num_nodes_out,
                self.cost_gradient_weights == old(self).cost_gradient_weights,
                self.cost_gradient_biases == old(self).cost_gradient_biases,
                self.activations == old(self).activations,
                node_out <= self.num_nodes_out,
                forall|o: int|
                    0 <= o < self.num_nodes_out ==> self.biases@[o] == if o < node_out {
                        stepped(unit, before.biases[o], gradients.biases[o], learn_rate)
                    } else {
                        before.biases[o]
                    },
                forall|i: int, o: int|
                    0 <= i < self.num_nodes_in && 0 <= o < self.num_nodes_out
                        ==> self.parameters().weights[i][o] == if o < node_out {
                        stepped(unit, before.weights[i][o], gradients.weights[i][o], learn_rate)
                    } else {
                        before.weights[i][o]
                    },
            decreases self.num_nodes_out - node_out,
        {
            let scaled = perform(
                unit,
                Operation::Mul(self.cost_gradient_biases[node_out], learn_rate),
            );
            let bias = perform(unit, Operation::Sub(self.biases[node_out], scaled));
            self.biases[node_out] = bias;
            let mut node_in: usize = 0;
            while node_in < self.num_nodes_in
                invariant
                    lawful(unit),
                    self.wf(),
                    before.has_shape(self.num_nodes_in as nat, self.num_nodes_out as nat),
                    gradients == self.gradients(),
                    self.num_nodes_in == old(self).num_nodes_in,
                    self.num_nodes_out == old(self).num_nodes_out,
                    self.cost_gradient_weights == old(self).cost_gradient_weights,
                    self.cost_gradient_biases == old(self).cost_gradient_biases,
                    self.activations == old(self).activations,
                    node_out < self.num_nodes_out,
                    node_in <= self.num_nodes_in,
                    forall|o: int|
                        0 <= o < self.num_nodes_out ==> self.biases@[o] == if o < node_out + 1 {
                            stepped(unit, before.biases[o], gradients.biases[o], learn_rate)
                        } else {
                            before.biases[o]
                        },
                    forall|i: int, o: int|
                        0 <= i < self.num_nodes_in && 0 <= o < self.num_nodes_out
                            ==> self.parameters().weights[i][o] == if o < node_out || (o
                            == node_out && i < node_in) {
                            stepped(unit, before.weights[i][o], gradients.weights[i][o], learn_rate)
                        } else {
                            before.weights[i][o]
                        },
                decreases self.num_nodes_in - node_in,
            {
                assert(self.parameters().weights[node_in as int].len() == self.num_nodes_out);
                assert(self.gradients().weights[node_in as int].len() == self.num_nodes_out);
                let scaled = perform(
                    unit,
                    Operation::Mul(self.cost_gradient_weights[node_in][node_out], learn_rate),
                );
                let weight = perform(unit, Operation::Sub(self.weights[node_in][node_out], scaled));
                set_entry(&mut self.weights, node_in, node_out, weight);
                node_in += 1;
            }
            node_out += 1;
        }
        proof {
            let expected = descended(unit, before, gradients, learn_rate);
            assert(self.parameters().biases =~= expected.biases);
            assert forall|i: int| 0 <= i < self.num_nodes_in implies #[trigger] self.parameters().weights[i]
                =~= expected.weights[i] by {
                assert(before.weights[i].len() == self.num_nodes_out);
            }
            assert(self.parameters().weights =~= expected.weights);
        }
    }

    /// Runs the inputs through the layer and keeps the outputs in
    /// `activations`. Inputs of another length than the layer's input width
    /// are refused and leave the layer as it was.
    pub fn calculate_outputs<F: Fn(Operation) -> u32>(
        &mut self,
        inputs: Vec<u32>,
        activation: &Activation,
        unit: &F,
    ) -> (done: Result<(), NetworkError>)
        requires
            old(self).wf(),
            lawful(unit),
        ensures
            inputs.len() != old(self).num_nodes_in ==> done == Err::<(), NetworkError>(
                NetworkError::ShapeMismatch,
            ) && *final(self) == *old(self),
            inputs.len() == old(self).num_nodes_in ==> {
                &&& done is Ok
                &&& final(self).wf()
                &&& final(self).same_but_activations(old(self))
                &&& final(self).activations@ == layer_outputs(
                    unit,
                    *activation,
                    old(self).parameters(),
                    inputs@,
                )
            },
    {
        if inputs.len() != self.num_nodes_in {
            return Err(NetworkError::ShapeMismatch);
        }
        self.feed(&inputs, *activation, unit);
        Ok(())
    }

    /// The pass itself, for inputs of the right length.
    pub(crate) fn feed<F: Fn(Operation) -> u32>(
        &mut self,
        inputs: &Vec<u32>,
        activation: Activation,
        unit: &F,
    )
        requires
            old(self).wf(),
            lawful(unit),
            inputs.len() == old(self).num_nodes_in,
        ensures
            final(self).wf(),
            final(self).same_but_activations(old(self)),
            final(self).activations@ == layer_outputs(
                unit,
                activation,
                old(self).parameters(),
                inputs@,
            ),
    {
        let ghost parameters = self.parameters();
        let mut node_out: usize = 0;
        while node_out < self.num_nodes_out
            invariant
                lawful(unit),
                self.wf(),
                self.same_but_activations(old(self)),
                parameters == self.parameters(),
                inputs.len() == self.num_nodes_in,
                node_out <= self.num_nodes_out,
                forall|o: int|
                    0 <= o < node_out ==> self.activations@[o] == activation.activated(
                        unit,
                        weighted_input(unit, parameters, inputs@, o, inputs@.len()),
                    ),
            decreases self.num_nodes_out - node_out,
        {
            let mut weighted: u32 = self.biases[node_out];
            let mut node_in: usize = 0;
            while node_in < self.num_nodes_in
                invariant
                    lawful(unit),
                    self.wf(),
                    parameters == self.parameters(),
                    inputs.len() == self.num_nodes_in,
                    node_out < self.num_nodes_out,
                    node_in <= self.num_nodes_in,
                    weighted == weighted_input(
                        unit,
                        parameters,
                        inputs@,
                        node_out as int,
                        node_in as nat,
                    ),
                decreases self.num_nodes_in - node_in,
            {
                assert(self.parameters().weights[node_in as int].len() == self.num_nodes_out);
                let share = perform(
                    unit,
                    Operation::Mul(inputs[node_in], self.weights[node_in][node_out]),
                );
                weighted = perform(unit, Operation::Add(weighted, share));
                node_in += 1;
            }
            let activation_value = activation.activate(weighted, unit);
            self.activations[node_out] = activation_value;
            node_out += 1;
        }
        assert(self.activations@ =~= layer_outputs(unit, activation, parameters, inputs@));
    }

    /// The cost of one output node: the square of its error.
    pub fn node_cost<F: Fn(Operation) -> u32>(
        &self,
        output_activation: u32,
        expected_output: u32,
        unit: &F,
    ) -> (cost: u32)
        requires
            lawful(unit),
        ensures
            cost == squared_error(unit, output_activation, expected_output),
    {
        error_squared(output_activation, expected_output, unit)
    }

    /// The derivative of a node's cost with respect to its output.
    pub fn node_cost_derivative<F: Fn(Operation) -> u32>(
        &self,
        output_activation: u32,
        expected_output: u32,
        unit: &F,
    ) -> (slope: u32)
        requires
            lawful(unit),
        ensures
            slope == squared_error_slope(unit, output_activation, expected_output),
    {
        let error = perform(unit, Operation::Sub(output_activation, expected_output));
        perform(unit, Operation::Mul(TWO, error))
    }
}

} // verus!
