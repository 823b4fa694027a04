//! The network: a chain of layers that share one activation function.

use crate::activation::Activation;
use crate::activation::ActivationType;
use crate::activation::Activations;
use crate::arithmetic::difference;
use crate::arithmetic::from_int;
use crate::arithmetic::lawful;
use crate::arithmetic::perform;
use crate::arithmetic::product;
use crate::arithmetic::quotient;
use crate::arithmetic::sum;
use crate::arithmetic::Operation;
use crate::data_point::one_hot;
use crate::data_point::DataPoint;
use crate::error::NetworkError;
use crate::layer::error_squared;
use crate::layer::initial_parameters;
use crate::layer::layer_outputs;
use crate::layer::squared_error;
use crate::layer::Layer;
use crate::layer::Parameters;
use crate::number::is_nan;
use crate::number::is_nonnegative;
use crate::number::order_key;
use crate::number::total_order_key;
use crate::number::ONE;
use crate::number::ZERO;
use crate::random::nth_state;
use crate::random::random_numbers;
use crate::random::RandomNumbers;
use vstd::prelude::*;

verus! {

/// What the first `depth` layers make of the inputs: each layer takes the
/// outputs of the layer before it.
pub open spec fn forward<F: Fn(Operation) -> u32>(
    unit: &F,
    activation: Activation,
    parameters: Seq<Parameters>,
    inputs: Seq<u32>,
    depth: nat,
) -> Seq<u32>
    decreases depth,
{
    if depth == 0 {
        inputs
    } else {
        layer_outputs(
            unit,
            activation,
            parameters[depth - 1],
            forward(unit, activation, parameters, inputs, (depth - 1) as nat),
        )
    }
}

/// What the whole network makes of the inputs.
pub open spec fn network_outputs<F: Fn(Operation) -> u32>(
    unit: &F,
    activation: Activation,
    parameters: Seq<Parameters>,
    inputs: Seq<u32>,
) -> Seq<u32> {
    forward(unit, activation, parameters, inputs, parameters.len())
}

/// The squared errors of the first `count` outputs, added one by one to
/// zero.
pub open spec fn summed_errors<F: Fn(Operation) -> u32>(
    unit: &F,
    outputs: Seq<u32>,
    expected: Seq<u32>,
    count: nat,
) -> u32
    decreases count,
{
    if count == 0 {
        ZERO
    } else {
        sum(
            unit,
            summed_errors(unit, outputs, expected, (count - 1) as nat),
            squared_error(unit, outputs[count - 1], expected[count - 1]),
        )
    }
}

/// The cost of one data point: the squared errors of all outputs that the
/// network gives for it.
pub open spec fn point_cost<F: Fn(Operation) -> u32>(
    unit: &F,
    activation: Activation,
    parameters: Seq<Parameters>,
    point: DataPoint,
) -> u32 {
    let outputs = network_outputs(unit, activation, parameters, point.inputs@);
    summed_errors(unit, outputs, point.expected_outputs@, outputs.len())
}

/// The costs of the first `count` data points, added one by one to zero.
pub open spec fn summed_costs<F: Fn(Operation) -> u32>(
    unit: &F,
    activation: Activation,
    parameters: Seq<Parameters>,
    data: Seq<DataPoint>,
    count: nat,
) -> u32
    decreases count,
{
    if count == 0 {
        ZERO
    } else {
        sum(
            unit,
            summed_costs(unit, activation, parameters, data, (count - 1) as nat),
            point_cost(unit, activation, parameters, data[count - 1]),
        )
    }
}

/// The mean cost over a data set; by convention zero over an empty one.
pub open spec fn mean_cost<F: Fn(Operation) -> u32>(
    unit: &F,
    activation: Activation,
    parameters: Seq<Parameters>,
    data: Seq<DataPoint>,
) -> u32 {
    if data.len() == 0 {
        ZERO
    } else {
        quotient(
            unit,
            summed_costs(unit, activation, parameters, data, data.len()),
            from_int(unit, data.len() as u64),
        )
    }
}

/// Whether `index` names the winner among the outputs: the first of those
/// that no other output exceeds in the total order.
pub open spec fn is_winner(outputs: Seq<u32>, index: int) -> bool {
    &&& 0 <= index < outputs.len()
    &&& forall|j: int|
        0 <= j < outputs.len() ==> total_order_key(#[trigger] outputs[j]) <= total_order_key(
            outputs[index],
        )
    &&& forall|j: int|
        0 <= j < index ==> total_order_key(#[trigger] outputs[j]) < total_order_key(outputs[index])
}

/// The number of layers between the given widths.
pub open spec fn number_of_layers(layer_sizes: Seq<usize>) -> nat {
    if layer_sizes.len() == 0 {
        0
    } else {
        (layer_sizes.len() - 1) as nat
    }
}

/// The state of a random stream that started at `seed` when the first
/// `count` layers have been drawn from it.
pub open spec fn state_before_layer(seed: u64, layer_sizes: Seq<usize>, count: nat) -> u64
    decreases count,
{
    if count == 0 {
        seed
    } else {
        nth_state(
            state_before_layer(seed, layer_sizes, (count - 1) as nat),
            (layer_sizes[count - 1] * layer_sizes[count as int] + layer_sizes[count as int]) as nat,
        )
    }
}

/// What holds of layer `k` of a network that has just been drawn from a
/// stream: it lies between widths `k` and `k + 1`, its parameters are
/// those that the stream gives at that point, and its gradients and kept
/// outputs are zero.
pub open spec fn drawn_layer<F: Fn(Operation) -> u32>(
    unit: &F,
    seed: u64,
    layer_sizes: Seq<usize>,
    k: int,
    layer: Layer,
) -> bool {
    &&& layer.wf()
    &&& layer.num_nodes_in == layer_sizes[k]
    &&& layer.num_nodes_out == layer_sizes[k + 1]
    &&& layer.parameters() == initial_parameters(
        unit,
        state_before_layer(seed, layer_sizes, k as nat),
        layer_sizes[k] as nat,
        layer_sizes[k + 1] as nat,
    )
    &&& layer.gradients() == Parameters::zero(layer_sizes[k] as nat, layer_sizes[k + 1] as nat)
    &&& layer.activations@ == Seq::new(layer_sizes[k + 1] as nat, |o: int| ZERO)
}

/// A network: its layers from the first to the last, and the activation
/// function that all of them use.
#[derive(Clone, Debug)]
pub struct NeuralNetwork {
    pub layers: Vec<Layer>,
    pub activation: Activation,
}

impl NeuralNetwork {
    /// The weights and biases of every layer.
    pub open spec fn parameters(&self) -> Seq<Parameters> {
        Seq::new(self.layers@.len(), |k: int| self.layers@[k].parameters())
    }

    /// The gradients that every layer keeps.
    pub open spec fn gradients(&self) -> Seq<Parameters> {
        Seq::new(self.layers@.len(), |k: int| self.layers@[k].gradients())
    }

    /// Every layer keeps its shapes, and each layer takes as many inputs
    /// as the layer before it gives outputs.
    pub open spec fn wf(&self) -> bool {
        &&& forall|k: int| 0 <= k < self.layers@.len() ==> (#[trigger] self.layers@[k]).wf()
        &&& forall|k: int|
            0 <= k < self.layers@.len() - 1 ==> (#[trigger] self.layers@[k]).num_nodes_out
                == self.layers@[k + 1].num_nodes_in
    }

    /// What holds of a network that has just been drawn from a stream
    /// that started at `seed`.
    pub open spec fn drawn_from<F: Fn(Operation) -> u32>(
        &self,
        unit: &F,
        seed: u64,
        layer_sizes: Seq<usize>,
    ) -> bool {
        &&& self.layers@.len() == number_of_layers(layer_sizes)
        &&& forall|k: int|
            0 <= k < self.layers@.len() ==> drawn_layer(
                unit,
                seed,
                layer_sizes,
                k,
                #[trigger] self.layers@[k],
            )
    }

    /// Whether the network takes input vectors of this length. A network
    /// without layers takes any.
    pub open spec fn takes(&self, len: nat) -> bool {
        self.layers@.len() == 0 || self.layers@[0].num_nodes_in == len
    }

    /// The number of outputs for inputs of the given length.
    pub open spec fn output_width(&self, input_len: nat) -> nat {
        if self.layers@.len() == 0 {
            input_len
        } else {
            self.layers@[self.layers@.len() - 1].num_nodes_out as nat
        }
    }

    /// Whether the network can be held against a data point: it takes the
    /// point's inputs, and the point expects a value for every output.
    pub open spec fn fits(&self, point: &DataPoint) -> bool {
        &&& self.takes(point.inputs@.len())
        &&& point.expected_outputs@.len() >= self.output_width(point.inputs@.len())
    }

    /// Whether the network can be held against every point of a data set.
    pub open spec fn fits_all(&self, data: Seq<DataPoint>) -> bool {
        forall|k: int| 0 <= k < data.len() ==> self.fits(#[trigger] &data[k])
    }

    /// Whether two networks differ at most in the outputs that their
    /// layers keep from the last pass.
    pub open spec fn same_but_activations(&self, other: &NeuralNetwork) -> bool {
        &&& self.activation == other.activation
        &&& self.layers@.len() == other.layers@.len()
        &&& forall|k: int|
            0 <= k < self.layers@.len() ==> (#[trigger] self.layers@[k]).same_but_activations(
                &other.layers@[k],
            )
    }

    /// Whether every layer keeps the outputs that it gives when the
    /// network is run on `inputs`.
    pub open spec fn keeps_pass_of<F: Fn(Operation) -> u32>(&self, unit: &F, inputs: Seq<u32>) -> bool {
        forall|k: int|
            0 <= k < self.layers@.len() ==> (#[trigger] self.layers@[k]).activations@ == forward(
                unit,
                self.activation,
                self.parameters(),
                inputs,
                (k + 1) as nat,
            )
    }

    /// Networks that differ at most in the kept outputs have the same
    /// parameters, gradients and widths.
    pub proof fn same_but_activations_keeps_the_rest(&self, other: &NeuralNetwork)
        requires
            self.same_but_activations(other),
        ensures
            self.parameters() == other.parameters(),
            self.gradients() == other.gradients(),
            forall|len: nat| self.takes(len) == other.takes(len),
            forall|len: nat| self.output_width(len) == other.output_width(len),
            forall|point: &DataPoint| self.fits(point) == other.fits(point),
    {
        assert(self.parameters() =~= other.parameters());
        assert(self.gradients() =~= other.gradients());
        if self.layers@.len() > 0 {
            let first = self.layers@[0];
            let last = self.layers@[self.layers@.len() - 1];
            assert(first.same_but_activations(&other.layers@[0]));
            assert(last.same_but_activations(&other.layers@[self.layers@.len() - 1]));
        }
    }

    /// Whether the network has the shapes that `wf` asks for.
    pub fn is_well_formed(&self) -> (well_formed: bool)
        ensures
            well_formed == self.wf(),
    {
        let mut k: usize = 0;
        while k < self.layers.len()
            invariant
                k <= self.layers@.len(),
                forall|j: int| 0 <= j < k ==> (#[trigger] self.layers@[j]).wf(),
                forall|j: int|
                    0 <= j < k - 1 ==> (#[trigger] self.layers@[j]).num_nodes_out
                        == self.layers@[j + 1].num_nodes_in,
            decreases self.layers@.len() - k,
        {
            if !self.layers[k].is_well_formed() {
                assert(!self.layers@[k as int].wf());
                return false;
            }
            if k > 0 && self.layers[k - 1].num_nodes_out != self.layers[k].num_nodes_in {
                assert(self.layers@[k - 1].num_nodes_out != self.layers@[k - 1 + 1].num_nodes_in);
                return false;
            }
            k += 1;
        }
        true
    }

    /// Creates a network with one layer between each two neighbouring
    /// widths; fewer than two widths give a network without layers. The
    /// parameters of all layers are drawn from one fresh random stream.
    pub fn new<F: Fn(Operation) -> u32>(
        layer_sizes: Vec<usize>,
        activation_type: &ActivationType,
        unit: &F,
    ) -> (network: Self)
        requires
            lawful(unit),
        ensures
            network.wf(),
            network.activation == Activations::named(*activation_type),
            exists|seed: u64| network.drawn_from(unit, seed, layer_sizes@),
    {
        let mut source = random_numbers();
        Self::from_source(layer_sizes, activation_type, &mut source, unit)
    }

    /// Creates a network whose parameters are drawn from the given
    /// stream, layer by layer.
    pub fn from_source<F: Fn(Operation) -> u32>(
        layer_sizes: Vec<usize>,
        activation_type: &ActivationType,
        source: &mut RandomNumbers,
        unit: &F,
    ) -> (network: Self)
        requires
            lawful(unit),
        ensures
            network.wf(),
            network.activation == Activations::named(*activation_type),
            network.drawn_from(unit, old(source).state(), layer_sizes@),
            final(source).state() == state_before_layer(
                old(source).state(),
                layer_sizes@,
                number_of_layers(layer_sizes@),
            ),
    {
        let ghost seed = source.state();
        // Do not include the input layer in the layers.
        let layer_count: usize = if layer_sizes.len() == 0 {
            0
        } else {
            layer_sizes.len() - 1
        };
        let mut layers: Vec<Layer> = Vec::new();
        let mut i: usize = 0;
        while i < layer_count
            invariant
                lawful(unit),
                i <= layer_count,
                layer_count == number_of_layers(layer_sizes@),
                layers@.len() == i,
                source.state() == state_before_layer(seed, layer_sizes@, i as nat),
                forall|k: int| 0 <= k < i ==> drawn_layer(unit, seed, layer_sizes@, k, #[trigger] layers@[k]),
            decreases layer_count - i,
        {
            layers.push(Layer::from_source(layer_sizes[i], layer_sizes[i + 1], source, unit));
            i += 1;
        }
        let activation = Activations::get_activation(activation_type);
        NeuralNetwork { layers, activation }
    }

    /// Runs the inputs through every layer in turn and returns what the
    /// last layer gives. Each layer keeps its outputs. Inputs of a length
    /// that the network does not take are refused and leave it as it was.
    pub fn calculate_outputs<F: Fn(Operation) -> u32>(&mut self, inputs: Vec<u32>, unit: &F) -> (made:
        Result<Vec<u32>, NetworkError>)
        requires
            old(self).wf(),
            lawful(unit),
        ensures
            !old(self).takes(inputs@.len()) ==> made == Err::<Vec<u32>, NetworkError>(
                NetworkError::ShapeMismatch,
            ) && *final(self) == *old(self),
            old(self).takes(inputs@.len()) ==> {
                &&& made is Ok
                &&& made->Ok_0@ == network_outputs(
                    unit,
                    old(self).activation,
                    old(self).parameters(),
                    inputs@,
                )
                &&& made->Ok_0@.len() == old(self).output_width(inputs@.len())
                &&& final(self).wf()
                &&& final(self).same_but_activations(old(self))
                &&& final(self).keeps_pass_of(unit, inputs@)
            },
    {
        if self.layers.len() > 0 && self.layers[0].num_nodes_in != inputs.len() {
            return Err(NetworkError::ShapeMismatch);
        }
        Ok(self.pass(inputs, unit))
    }

    /// The pass itself, for inputs that the network takes.
    pub(crate) fn pass<F: Fn(Operation) -> u32>(&mut self, inputs: Vec<u32>, unit: &F) -> (outputs:
        Vec<u32>)
        requires
            old(self).wf(),
            old(self).takes(inputs@.len()),
            lawful(unit),
        ensures
            outputs@ == network_outputs(
                unit,
                old(self).activation,
                old(self).parameters(),
                inputs@,
            ),
            outputs@.len() == old(self).output_width(inputs@.len()),
            final(self).wf(),
            final(self).same_but_activations(old(self)),
            final(self).keeps_pass_of(unit, inputs@),
    {
        let ghost parameters = self.parameters();
        let activation = self.activation;
        let mut outputs = inputs;
        let mut layer_index: usize = 0;
        while layer_index < self.layers.len()
            invariant
                lawful(unit),
                self.wf(),
                self.same_but_activations(old(self)),
                activation == self.activation,
                parameters == old(self).parameters(),
                layer_index <= self.layers@.len(),
                outputs@ == forward(unit, activation, parameters, inputs@, layer_index as nat),
                layer_index < self.layers@.len() ==> outputs@.len()
                    == self.layers@[layer_index as int].num_nodes_in,
                layer_index == 0 ==> outputs@.len() == inputs@.len(),
                layer_index > 0 ==> outputs@.len() == self.layers@[layer_index - 1].num_nodes_out,
                forall|k: int|
                    0 <= k < layer_index ==> (#[trigger] self.layers@[k]).activations@ == forward(
                        unit,
                        activation,
                        parameters,
                        inputs@,
                        (k + 1) as nat,
                    ),
            decreases self.layers@.len() - layer_index,
        {
            let ghost before = self.layers@;
            assert(before[layer_index as int].wf());
            assert(before[layer_index as int].same_but_activations(
                &old(self).layers@[layer_index as int],
            ));
            self.layers[layer_index].feed(&outputs, activation, unit);
            outputs = copy_of(&self.layers[layer_index].activations);
            proof {
                assert(self.layers@ =~= before.update(layer_index as int, self.layers@[layer_index as int]));
                assert(before[layer_index as int].parameters() == parameters[layer_index as int]);
                assert forall|k: int| 0 <= k < self.layers@.len() implies (#[trigger] self.layers@[k]).wf()
                    && self.layers@[k].same_but_activations(&old(self).layers@[k]) by {
                    if k != layer_index {
                        assert(before[k].wf());
                        assert(before[k].same_but_activations(&old(self).layers@[k]));
                    }
                }
                assert forall|k: int| 0 <= k < self.layers@.len() - 1 implies (
                #[trigger] self.layers@[k]).num_nodes_out == self.layers@[k + 1].num_nodes_in by {
                    assert(before[k].num_nodes_out == before[k + 1].num_nodes_in);
                    assert(self.layers@[k].num_nodes_out == before[k].num_nodes_out);
                    assert(self.layers@[k + 1].num_nodes_in == before[k + 1].num_nodes_in);
                }
                assert forall|k: int| 0 <= k < layer_index + 1 implies (
                #[trigger] self.layers@[k]).activations@ == forward(
                    unit,
                    activation,
                    parameters,
                    inputs@,
                    (k + 1) as nat,
                ) by {
                    if k != layer_index {
                        assert(before[k].activations@ == forward(
                            unit,
                            activation,
                            parameters,
                            inputs@,
                            (k + 1) as nat,
                        ));
                    }
                }
            }
            layer_index += 1;
        }
        proof {
            self.same_but_activations_keeps_the_rest(old(self));
        }
        outputs
    }

    /// Runs the inputs through the network and names the output with the
    /// highest value in the total order of single-precision values. Of
    /// equal outputs the first wins. A network without outputs names none.
    pub fn classify<F: Fn(Operation) -> u32>(&mut self, inputs: Vec<u32>, unit: &F) -> (made: Result<
        Option<usize>,
        NetworkError,
    >)
        requires
            old(self).wf(),
            lawful(unit),
        ensures
            !old(self).takes(inputs@.len()) ==> made == Err::<Option<usize>, NetworkError>(
                NetworkError::ShapeMismatch,
            ) && *final(self) == *old(self),
            old(self).takes(inputs@.len()) ==> {
                let outputs = network_outputs(
                    unit,
                    old(self).activation,
                    old(self).parameters(),
                    inputs@,
                );
                let width = old(self).output_width(inputs@.len());
                &&& made is Ok
                &&& outputs.len() == width
                &&& width == 0 ==> made->Ok_0 is None
                &&& width > 0 ==> made->Ok_0 is Some && made->Ok_0->Some_0 < width && is_winner(
                    outputs,
                    made->Ok_0->Some_0 as int,
                )
                &&& final(self).wf()
                &&& final(self).same_but_activations(old(self))
                &&& final(self).keeps_pass_of(unit, inputs@)
            },
    {
        if self.layers.len() > 0 && self.layers[0].num_nodes_in != inputs.len() {
            return Err(NetworkError::ShapeMismatch);
        }
        let outputs = self.pass(inputs, unit);
        Ok(winner(&outputs))
    }

    /// The mean cost of the network over a data set: zero for an empty
    /// set. A set with a point that does not fit the network is refused
    /// and leaves the network as it was.
    pub fn cost<F: Fn(Operation) -> u32>(&mut self, data: &Vec<DataPoint>, unit: &F) -> (made: Result<
        u32,
        NetworkError,
    >)
        requires
            old(self).wf(),
            lawful(unit),
        ensures
            !old(self).fits_all(data@) ==> made == Err::<u32, NetworkError>(
                NetworkError::ShapeMismatch,
            ) && *final(self) == *old(self),
            old(self).fits_all(data@) ==> {
                &&& made == Ok::<u32, NetworkError>(
                    mean_cost(unit, old(self).activation, old(self).parameters(), data@),
                )
                &&& final(self).wf()
                &&& final(self).same_but_activations(old(self))
                &&& data@.len() == 0 ==> *final(self) == *old(self)
                &&& data@.len() > 0 ==> final(self).keeps_pass_of(
                    unit,
                    data@[data@.len() - 1].inputs@,
                )
            },
    {
        if !self.accepts(data) {
            return Err(NetworkError::ShapeMismatch);
        }
        Ok(self.measure(data, unit))
    }

    /// Whether every point of a data set fits the network.
    pub fn accepts(&self, data: &Vec<DataPoint>) -> (fitting: bool)
        ensures
            fitting == self.fits_all(data@),
    {
        let mut k: usize = 0;
        while k < data.len()
            invariant
                k <= data@.len(),
                forall|j: int| 0 <= j < k ==> self.fits(#[trigger] &data@[j]),
            decreases data@.len() - k,
        {
            let point = &data[k];
            let width = if self.layers.len() == 0 {
                point.inputs.len()
            } else {
                if self.layers[0].num_nodes_in != point.inputs.len() {
                    assert(!self.fits(&data@[k as int]));
                    return false;
                }
                self.layers[self.layers.len() - 1].num_nodes_out
            };
            if point.expected_outputs.len() < width {
                assert(!self.fits(&data@[k as int]));
                return false;
            }
            k += 1;
        }
        true
    }

    /// The mean cost over a data set of which every point fits.
    pub(crate) fn measure<F: Fn(Operation) -> u32>(&mut self, data: &Vec<DataPoint>, unit: &F) -> (cost:
        u32)
        requires
            old(self).wf(),
            old(self).fits_all(data@),
            lawful(unit),
        ensures
            cost == mean_cost(unit, old(self).activation, old(self).parameters(), data@),
            final(self).wf(),
            final(self).same_but_activations(old(self)),
            data@.len() == 0 ==> *final(self) == *old(self),
            data@.len() > 0 ==> final(self).keeps_pass_of(unit, data@[data@.len() - 1].inputs@),
    {
        if data.len() == 0 {
            return ZERO;
        }
        let ghost parameters = self.parameters();
        let ghost activation = self.activation;
        let mut total_cost: u32 = ZERO;
        let mut k: usize = 0;
        while k < data.len()
            invariant
                lawful(unit),
                self.wf(),
                self.same_but_activations(old(self)),
                old(self).fits_all(data@),
                parameters == old(self).parameters(),
                activation == old(self).activation,
                k <= data@.len(),
                total_cost == summed_costs(unit, activation, parameters, data@, k as nat),
                k > 0 ==> self.keeps_pass_of(unit, data@[k - 1].inputs@),
            decreases data@.len() - k,
        {
            proof {
                self.same_but_activations_keeps_the_rest(old(self));
                assert(old(self).fits(&data@[k as int]));
            }
            let ghost before = *self;
            let single = self.cost_single(&data[k], unit);
            total_cost = perform(unit, Operation::Add(total_cost, single));
            proof {
                assert forall|j: int| 0 <= j < self.layers@.len() implies (
                #[trigger] self.layers@[j]).same_but_activations(&old(self).layers@[j]) by {
                    assert(self.layers@[j].same_but_activations(&before.layers@[j]));
                    assert(before.layers@[j].same_but_activations(&old(self).layers@[j]));
                }
            }
            k += 1;
        }
        let count: u64 = data.len() as u64;
        let data_len = perform(unit, Operation::FromInt(count));
        perform(unit, Operation::Div(total_cost, data_len))
    }

    /// The cost of one data point that fits the network.
    fn cost_single<F: Fn(Operation) -> u32>(&mut self, data_point: &DataPoint, unit: &F) -> (cost: u32)
        requires
            old(self).wf(),
            old(self).fits(data_point),
            lawful(unit),
        ensures
            cost == point_cost(unit, old(self).activation, old(self).parameters(), *data_point),
            final(self).wf(),
            final(self).same_but_activations(old(self)),
            final(self).keeps_pass_of(unit, data_point.inputs@),
    {
        let outputs = self.pass(copy_of(&data_point.inputs), unit);
        let mut cost: u32 = ZERO;
        let mut node_out: usize = 0;
        while node_out < outputs.len()
            invariant
                lawful(unit),
                node_out <= outputs@.len(),
                outputs@.len() <= data_point.expected_outputs@.len(),
                cost == summed_errors(
                    unit,
                    outputs@,
                    data_point.expected_outputs@,
                    node_out as nat,
                ),
            decreases outputs@.len() - node_out,
        {
            let current_node_cost = error_squared(
                outputs[node_out],
                data_point.expected_outputs[node_out],
                unit,
            );
            cost = perform(unit, Operation::Add(cost, current_node_cost));
            node_out += 1;
        }
        cost
    }
}

/// A copy of a vector.
pub(crate) fn copy_of(values: &Vec<u32>) -> (copy: Vec<u32>)
    ensures
        copy@ == values@,
{
    let mut copy: Vec<u32> = Vec::new();
    let mut k: usize = 0;
    while k < values.len()
        invariant
            k <= values@.len(),
            copy@ == values@.take(k as int),
        decreases values@.len() - k,
    {
        copy.push(values[k]);
        assert(copy@ =~= values@.take(k + 1));
        k += 1;
    }
    assert(values@.take(values@.len() as int) =~= values@);
    copy
}

/// The winner among the outputs, if there is any output.
pub fn winner(outputs: &Vec<u32>) -> (index: Option<usize>)
    ensures
        outputs@.len() == 0 ==> index is None,
        outputs@.len() > 0 ==> index is Some && is_winner(outputs@, index->Some_0 as int),
{
    if outputs.len() == 0 {
        return None;
    }
    let mut best: usize = 0;
    let mut best_key: u32 = order_key(outputs[0]);
    let mut k: usize = 1;
    while k < outputs.len()
        invariant
            1 <= k <= outputs@.len(),
            best < k,
            best_key == total_order_key(outputs@[best as int]),
            forall|j: int| 0 <= j < k ==> total_order_key(#[trigger] outputs@[j]) <= best_key,
            forall|j: int| 0 <= j < best ==> total_order_key(#[trigger] outputs@[j]) < best_key,
        decreases outputs@.len() - k,
    {
        let key = order_key(outputs[k]);
        if key > best_key {
            best = k;
            best_key = key;
        }
        k += 1;
    }
    Some(best)
}

/// What the law of exact outputs asks of the arithmetic: zero less zero
/// and one less one are zero, zero times zero is zero, zero and zero add
/// up to zero, and zero divided by a count is zero.
pub open spec fn exact_on_targets<F: Fn(Operation) -> u32>(unit: &F) -> bool {
    &&& difference(unit, ZERO, ZERO) == ZERO
    &&& difference(unit, ONE, ONE) == ZERO
    &&& product(unit, ZERO, ZERO) == ZERO
    &&& sum(unit, ZERO, ZERO) == ZERO
    &&& forall|n: u64| n > 0 ==> quotient(unit, ZERO, #[trigger] from_int(unit, n)) == ZERO
}

/// Outputs that equal a one-hot target have no squared error.
proof fn exact_outputs_have_no_error<F: Fn(Operation) -> u32>(
    unit: &F,
    label: usize,
    num_labels: usize,
    count: nat,
)
    requires
        exact_on_targets(unit),
        count <= num_labels,
    ensures
        summed_errors(unit, one_hot(label, num_labels), one_hot(label, num_labels), count) == ZERO,
    decreases count,
{
    if count > 0 {
        exact_outputs_have_no_error(unit, label, num_labels, (count - 1) as nat);
    }
}

/// With arithmetic that is exact on zero and one, a network whose
/// outputs equal the one-hot target of every data point has a mean cost
/// of zero.
pub proof fn exact_outputs_cost_nothing<F: Fn(Operation) -> u32>(
    unit: &F,
    activation: Activation,
    parameters: Seq<Parameters>,
    data: Seq<DataPoint>,
)
    requires
        exact_on_targets(unit),
        data.len() <= u64::MAX,
        forall|k: int|
            0 <= k < data.len() ==> (#[trigger] data[k]).wf() && network_outputs(
                unit,
                activation,
                parameters,
                data[k].inputs@,
            ) == data[k].expected_outputs@,
    ensures
        mean_cost(unit, activation, parameters, data) == ZERO,
{
    exact_outputs_sum_to_nothing(unit, activation, parameters, data, data.len());
}

/// The costs of data points whose outputs equal their targets add up to
/// zero.
proof fn exact_outputs_sum_to_nothing<F: Fn(Operation) -> u32>(
    unit: &F,
    activation: Activation,
    parameters: Seq<Parameters>,
    data: Seq<DataPoint>,
    count: nat,
)
    requires
        exact_on_targets(unit),
        count <= data.len(),
        forall|k: int|
            0 <= k < data.len() ==> (#[trigger] data[k]).wf() && network_outputs(
                unit,
                activation,
                parameters,
                data[k].inputs@,
            ) == data[k].expected_outputs@,
    ensures
        summed_costs(unit, activation, parameters, data, count) == ZERO,
    decreases count,
{
    if count > 0 {
        exact_outputs_sum_to_nothing(unit, activation, parameters, data, (count - 1) as nat);
        let point = data[count - 1];
        assert(point.wf());
        exact_outputs_have_no_error(
            unit,
            point.label,
            point.expected_outputs.len(),
            point.expected_outputs@.len(),
        );
    }
}

/// What the law of costs asks of the arithmetic: the square of a number
/// is not negative, and neither is the sum of two numbers that are not
/// negative, nor such a number divided by a count.
pub open spec fn keeps_signs<F: Fn(Operation) -> u32>(unit: &F) -> bool {
    &&& forall|e: u32| !is_nan(e) ==> is_nonnegative(#[trigger] product(unit, e, e))
    &&& forall|a: u32, b: u32|
        is_nonnegative(a) && is_nonnegative(b) ==> is_nonnegative(#[trigger] sum(unit, a, b))
    &&& forall|a: u32, n: u64|
        is_nonnegative(a) && n > 0 ==> is_nonnegative(
            #[trigger] quotient(unit, a, from_int(unit, n)),
        )
}

/// Whether the error of every output is a number.
pub open spec fn errors_are_numbers<F: Fn(Operation) -> u32>(
    unit: &F,
    outputs: Seq<u32>,
    expected: Seq<u32>,
) -> bool {
    forall|o: int|
        0 <= o < outputs.len() ==> !is_nan(#[trigger] difference(unit, outputs[o], expected[o]))
}

/// Squared errors add up to a number that is not negative.
proof fn squared_errors_are_not_negative<F: Fn(Operation) -> u32>(
    unit: &F,
    outputs: Seq<u32>,
    expected: Seq<u32>,
    count: nat,
)
    requires
        keeps_signs(unit),
        errors_are_numbers(unit, outputs, expected),
        count <= outputs.len(),
    ensures
        is_nonnegative(summed_errors(unit, outputs, expected, count)),
    decreases count,
{
    if count > 0 {
        squared_errors_are_not_negative(unit, outputs, expected, (count - 1) as nat);
        let error = difference(unit, outputs[count - 1], expected[count - 1]);
        assert(is_nonnegative(product(unit, error, error)));
    }
}

/// The costs of data points add up to a number that is not negative.
proof fn summed_costs_are_not_negative<F: Fn(Operation) -> u32>(
    unit: &F,
    activation: Activation,
    parameters: Seq<Parameters>,
    data: Seq<DataPoint>,
    count: nat,
)
    requires
        keeps_signs(unit),
        count <= data.len(),
        forall|k: int|
            0 <= k < data.len() ==> errors_are_numbers(
                unit,
                network_outputs(unit, activation, parameters, (#[trigger] data[k]).inputs@),
                data[k].expected_outputs@,
            ),
    ensures
        is_nonnegative(summed_costs(unit, activation, parameters, data, count)),
    decreases count,
{
    if count > 0 {
        summed_costs_are_not_negative(unit, activation, parameters, data, (count - 1) as nat);
        let point = data[count - 1];
        let outputs = network_outputs(unit, activation, parameters, point.inputs@);
        squared_errors_are_not_negative(unit, outputs, point.expected_outputs@, outputs.len());
    }
}

/// With arithmetic that keeps signs, the mean cost is a number that is
/// not negative, as long as the error of every output is a number.
pub proof fn cost_is_not_negative<F: Fn(Operation) -> u32>(
    unit: &F,
    activation: Activation,
    parameters: Seq<Parameters>,
    data: Seq<DataPoint>,
)
    requires
        keeps_signs(unit),
        data.len() <= u64::MAX,
        forall|k: int|
            0 <= k < data.len() ==> errors_are_numbers(
                unit,
                network_outputs(unit, activation, parameters, (#[trigger] data[k]).inputs@),
                data[k].expected_outputs@,
            ),
    ensures
        is_nonnegative(mean_cost(unit, activation, parameters, data)),
{
    summed_costs_are_not_negative(unit, activation, parameters, data, data.len());
}

/// No two outputs are winners at once.
pub proof fn winner_is_unique(outputs: Seq<u32>, first: int, second: int)
    requires
        is_winner(outputs, first),
        is_winner(outputs, second),
    ensures
        first == second,
{
    if first < second {
        assert(total_order_key(outputs[first]) < total_order_key(outputs[second]));
        assert(total_order_key(outputs[second]) <= total_order_key(outputs[first]));
    } else if second < first {
        assert(total_order_key(outputs[second]) < total_order_key(outputs[first]));
        assert(total_order_key(outputs[first]) <= total_order_key(outputs[second]));
    }
}

} // verus!
