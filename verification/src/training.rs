//! One training step: every parameter is nudged in turn, the change of the
//! cost gives its gradient, and only then all parameters move.

use crate::activation::Activation;
use crate::arithmetic::difference;
use crate::arithmetic::lawful;
use crate::arithmetic::perform;
use crate::arithmetic::quotient;
use crate::arithmetic::sum;
use crate::arithmetic::Operation;
use crate::data_point::DataPoint;
use crate::error::NetworkError;
use crate::layer::descended;
use crate::layer::rows;
use crate::layer::set_entry;
use crate::layer::with_entry;
use crate::layer::Layer;
use crate::layer::Parameters;
use crate::neural_network::copy_of;
use crate::neural_network::mean_cost;
use crate::neural_network::NeuralNetwork;
use crate::number::is_zero;
use crate::number::zero_bits;
use vstd::prelude::*;

verus! {

/// The parameters of a network with one weight replaced.
pub open spec fn with_weight(
    parameters: Seq<Parameters>,
    layer: int,
    node_in: int,
    node_out: int,
    value: u32,
) -> Seq<Parameters> {
    parameters.update(
        layer,
        Parameters {
            weights: with_entry(parameters[layer].weights, node_in, node_out, value),
            biases: parameters[layer].biases,
        },
    )
}

/// The parameters of a network with one bias replaced.
pub open spec fn with_bias(parameters: Seq<Parameters>, layer: int, node_out: int, value: u32) -> Seq<
    Parameters,
> {
    parameters.update(
        layer,
        Parameters {
            weights: parameters[layer].weights,
            biases: parameters[layer].biases.update(node_out, value),
        },
    )
}

/// The finite difference `(nudged_cost - cost) / h`.
pub open spec fn finite_difference<F: Fn(Operation) -> u32>(
    unit: &F,
    nudged_cost: u32,
    cost: u32,
    h: u32,
) -> u32 {
    quotient(unit, difference(unit, nudged_cost, cost), h)
}

/// The estimated gradient of the mean cost with respect to one weight: the
/// weight alone is raised by `h`, all other parameters stay as given.
pub open spec fn weight_gradient<F: Fn(Operation) -> u32>(
    unit: &F,
    activation: Activation,
    parameters: Seq<Parameters>,
    data: Seq<DataPoint>,
    h: u32,
    layer: int,
    node_in: int,
    node_out: int,
) -> u32 {
    let nudged = sum(unit, parameters[layer].weights[node_in][node_out], h);
    finite_difference(
        unit,
        mean_cost(
            unit,
            activation,
            with_weight(parameters, layer, node_in, node_out, nudged),
            data,
        ),
        mean_cost(unit, activation, parameters, data),
        h,
    )
}

/// The estimated gradient of the mean cost with respect to one bias.
pub open spec fn bias_gradient<F: Fn(Operation) -> u32>(
    unit: &F,
    activation: Activation,
    parameters: Seq<Parameters>,
    data: Seq<DataPoint>,
    h: u32,
    layer: int,
    node_out: int,
) -> u32 {
    let nudged = sum(unit, parameters[layer].biases[node_out], h);
    finite_difference(
        unit,
        mean_cost(unit, activation, with_bias(parameters, layer, node_out, nudged), data),
        mean_cost(unit, activation, parameters, data),
        h,
    )
}

/// The estimated gradients of all parameters, each against the same
/// unchanged parameters.
pub open spec fn estimated_gradients<F: Fn(Operation) -> u32>(
    unit: &F,
    activation: Activation,
    parameters: Seq<Parameters>,
    data: Seq<DataPoint>,
    h: u32,
) -> Seq<Parameters> {
    Seq::new(
        parameters.len(),
        |l: int|
            Parameters {
                weights: Seq::new(
                    parameters[l].weights.len(),
                    |i: int|
                        Seq::new(
                            parameters[l].weights[i].len(),
                            |o: int| weight_gradient(unit, activation, parameters, data, h, l, i, o),
                        ),
                ),
                biases: Seq::new(
                    parameters[l].biases.len(),
                    |o: int| bias_gradient(unit, activation, parameters, data, h, l, o),
                ),
            },
    )
}

/// The parameters of every layer after one step against its gradients.
pub open spec fn descended_all<F: Fn(Operation) -> u32>(
    unit: &F,
    parameters: Seq<Parameters>,
    gradients: Seq<Parameters>,
    learn_rate: u32,
) -> Seq<Parameters> {
    Seq::new(
        parameters.len(),
        |l: int| descended(unit, parameters[l], gradients[l], learn_rate),
    )
}

impl NeuralNetwork {
    /// Whether two networks have the same activation function and layers
    /// of the same widths.
    pub open spec fn same_widths(&self, other: &NeuralNetwork) -> bool {
        &&& self.activation == other.activation
        &&& self.layers@.len() == other.layers@.len()
        &&& forall|k: int|
            0 <= k < self.layers@.len() ==> (#[trigger] self.layers@[k]).num_nodes_in
                == other.layers@[k].num_nodes_in && self.layers@[k].num_nodes_out
                == other.layers@[k].num_nodes_out
    }

    /// Networks of the same widths fit the same data.
    pub proof fn same_widths_fit_alike(&self, other: &NeuralNetwork, data: Seq<DataPoint>)
        requires
            self.same_widths(other),
        ensures
            self.fits_all(data) == other.fits_all(data),
    {
        if self.layers@.len() > 0 {
            let first = self.layers@[0];
            let last = self.layers@[self.layers@.len() - 1];
            assert(first.num_nodes_in == other.layers@[0].num_nodes_in);
            assert(last.num_nodes_out == other.layers@[self.layers@.len() - 1].num_nodes_out);
        }
        if self.fits_all(data) {
            assert forall|k: int| 0 <= k < data.len() implies other.fits(#[trigger] &data[k]) by {
                assert(self.fits(&data[k]));
            }
        }
        if other.fits_all(data) {
            assert forall|k: int| 0 <= k < data.len() implies self.fits(#[trigger] &data[k]) by {
                assert(other.fits(&data[k]));
            }
        }
    }

    /// One step of gradient descent by finite differences.
    ///
    /// The cost over the data is measured once. Then each weight and each
    /// bias in turn is raised by `h`, the cost is measured again, and the
    /// parameter is set back to the value it had; the change of the cost,
    /// divided by `h`, is kept as the parameter's gradient. When the
    /// gradients of all layers are known, every parameter moves by its
    /// gradient times `learn_rate`.
    ///
    /// A step width of zero is refused, and so is a data set with a point
    /// that does not fit the network; both leave the network as it was.
    pub fn learn<F: Fn(Operation) -> u32>(
        &mut self,
        training_data: &Vec<DataPoint>,
        learn_rate: u32,
        h: u32,
        unit: &F,
    ) -> (done: Result<(), NetworkError>)
        requires
            old(self).wf(),
            lawful(unit),
        ensures
            is_zero(h) ==> done == Err::<(), NetworkError>(NetworkError::DegenerateStep) && *final(self)
                == *old(self),
            !is_zero(h) && !old(self).fits_all(training_data@) ==> done == Err::<(), NetworkError>(
                NetworkError::ShapeMismatch,
            ) && *final(self) == *old(self),
            !is_zero(h) && old(self).fits_all(training_data@) ==> {
                &&& done is Ok
                &&& final(self).wf()
                &&& final(self).same_widths(old(self))
                &&& final(self).gradients() == estimated_gradients(
                    unit,
                    old(self).activation,
                    old(self).parameters(),
                    training_data@,
                    h,
                )
                &&& final(self).parameters() == descended_all(
                    unit,
                    old(self).parameters(),
                    final(self).gradients(),
                    learn_rate,
                )
            },
    {
        if zero_bits(h) {
            return Err(NetworkError::DegenerateStep);
        }
        if !self.accepts(training_data) {
            return Err(NetworkError::ShapeMismatch);
        }
        let ghost base = self.parameters();
        let ghost target = estimated_gradients(unit, self.activation, base, training_data@, h);
        let baseline_cost = self.measure(training_data, unit);
        proof {
            self.same_but_activations_keeps_the_rest(old(self));
            self.same_widths_fit_alike(old(self), training_data@);
        }
        let layers = self.snapshot();
        let mut layer_index: usize = 0;
        while layer_index < layers.len()
            invariant
                lawful(unit),
                self.wf(),
                self.same_widths(old(self)),
                self.fits_all(training_data@),
                self.parameters() == base,
                base == old(self).parameters(),
                target == estimated_gradients(unit, self.activation, base, training_data@, h),
                baseline_cost == mean_cost(unit, self.activation, base, training_data@),
                layers@.len() == self.layers@.len(),
                forall|l: int| 0 <= l < layers@.len() ==> (#[trigger] layers@[l]).parameters() == base[l],
                layer_index <= layers@.len(),
                forall|l: int| 0 <= l < layer_index ==> (#[trigger] self.gradients()[l]) == target[l],
            decreases layers@.len() - layer_index,
        {
            let ghost before = *self;
            self.estimate_layer(
                training_data,
                baseline_cost,
                h,
                layer_index,
                &layers[layer_index],
                unit,
            );
            proof {
                assert forall|l: int| 0 <= l < layer_index + 1 implies (
                #[trigger] self.gradients()[l]) == target[l] by {
                    if l < layer_index {
                        assert(before.gradients()[l] == target[l]);
                    }
                }
                assert forall|k: int| 0 <= k < self.layers@.len() implies (
                #[trigger] self.layers@[k]).num_nodes_in == old(self).layers@[k].num_nodes_in
                    && self.layers@[k].num_nodes_out == old(self).layers@[k].num_nodes_out by {
                    assert(before.layers@[k].num_nodes_in == old(self).layers@[k].num_nodes_in);
                }
                self.same_widths_fit_alike(old(self), training_data@);
                old(self).same_widths_fit_alike(&before, training_data@);
            }
            layer_index += 1;
        }
        assert(self.gradients() =~= target);
        self.apply_all_gradients(learn_rate, unit);
        proof {
            assert forall|k: int| 0 <= k < self.layers@.len() implies (
            #[trigger] self.layers@[k]).num_nodes_in == old(self).layers@[k].num_nodes_in
                && self.layers@[k].num_nodes_out == old(self).layers@[k].num_nodes_out by {}
        }
        Ok(())
    }

    /// A copy of every layer, taken before anything is nudged.
    fn snapshot(&self) -> (layers: Vec<Layer>)
        requires
            self.wf(),
        ensures
            layers@.len() == self.layers@.len(),
            forall|l: int|
                0 <= l < layers@.len() ==> (#[trigger] layers@[l]).parameters()
                    == self.parameters()[l],
    {
        let mut layers: Vec<Layer> = Vec::new();
        let mut l: usize = 0;
        while l < self.layers.len()
            invariant
                self.wf(),
                l <= self.layers@.len(),
                layers@.len() == l,
                forall|k: int|
                    0 <= k < l ==> (#[trigger] layers@[k]).parameters() == self.parameters()[k],
            decreases self.layers@.len() - l,
        {
            let layer = &self.layers[l];
            let copy = Layer {
                num_nodes_in: layer.num_nodes_in,
                num_nodes_out: layer.num_nodes_out,
                cost_gradient_weights: copy_of_rows(&layer.cost_gradient_weights),
                cost_gradient_biases: copy_of(&layer.cost_gradient_biases),
                weights: copy_of_rows(&layer.weights),
                biases: copy_of(&layer.biases),
                activations: copy_of(&layer.activations),
            };
            layers.push(copy);
            l += 1;
        }
        layers
    }

    /// Estimates the gradients of one layer, first of its weights, then
    /// of its biases. `layer` is the copy of that layer from before the
    /// step; each parameter is set back to the value it has there.
    fn estimate_layer<F: Fn(Operation) -> u32>(
        &mut self,
        training_data: &Vec<DataPoint>,
        baseline_cost: u32,
        h: u32,
        layer_index: usize,
        layer: &Layer,
        unit: &F,
    )
        requires
            old(self).wf(),
            old(self).fits_all(training_data@),
            lawful(unit),
            layer_index < old(self).layers@.len(),
            layer.parameters() == old(self).parameters()[layer_index as int],
            baseline_cost == mean_cost(
                unit,
                old(self).activation,
                old(self).parameters(),
                training_data@,
            ),
        ensures
            final(self).wf(),
            final(self).same_widths(old(self)),
            final(self).parameters() == old(self).parameters(),
            final(self).gradients()[layer_index as int] == estimated_gradients(
                unit,
                old(self).activation,
                old(self).parameters(),
                training_data@,
                h,
            )[layer_index as int],
            forall|l: int|
                0 <= l < old(self).layers@.len() && l != layer_index ==> (
                #[trigger] final(self).gradients()[l]) == old(self).gradients()[l],
    {
        let ghost base = self.parameters();
        let ghost activation = self.activation;
        let ghost prior = self.gradients();
        let ghost l = layer_index as int;
        let ghost target = estimated_gradients(unit, activation, base, training_data@, h);
        let num_nodes_in = self.layers[layer_index].num_nodes_in;
        let num_nodes_out = self.layers[layer_index].num_nodes_out;
        assert(self.layers@[l].wf());
        assert(base[l].has_shape(num_nodes_in as nat, num_nodes_out as nat));
        let mut node_in: usize = 0;
        while node_in < num_nodes_in
            invariant
                lawful(unit),
                self.wf(),
                self.same_widths(old(self)),
                self.fits_all(training_data@),
                self.parameters() == base,
                base == old(self).parameters(),
                activation == self.activation,
                prior == old(self).gradients(),
                l == layer_index,
                layer_index < self.layers@.len(),
                layer.parameters() == base[l],
                base[l].has_shape(num_nodes_in as nat, num_nodes_out as nat),
                num_nodes_in == self.layers@[l].num_nodes_in,
                num_nodes_out == self.layers@[l].num_nodes_out,
                target == estimated_gradients(unit, activation, base, training_data@, h),
                baseline_cost == mean_cost(unit, activation, base, training_data@),
                node_in <= num_nodes_in,
                forall|k: int|
                    0 <= k < self.layers@.len() && k != l ==> (#[trigger] self.gradients()[k])
                        == prior[k],
                forall|i: int, o: int|
                    0 <= i < node_in && 0 <= o < num_nodes_out ==> self.gradients()[l].weights[i][o]
                        == weight_gradient(unit, activation, base, training_data@, h, l, i, o),
            decreases num_nodes_in - node_in,
        {
            let mut node_out: usize = 0;
            while node_out < num_nodes_out
                invariant
                    lawful(unit),
                    self.wf(),
                    self.same_widths(old(self)),
                    self.fits_all(training_data@),
                    self.parameters() == base,
                    base == old(self).parameters(),
                    activation == self.activation,
                    prior == old(self).gradients(),
                    l == layer_index,
                    layer_index < self.layers@.len(),
                    layer.parameters() == base[l],
                    base[l].has_shape(num_nodes_in as nat, num_nodes_out as nat),
                    num_nodes_in == self.layers@[l].num_nodes_in,
                    num_nodes_out == self.layers@[l].num_nodes_out,
                    baseline_cost == mean_cost(unit, activation, base, training_data@),
                    node_in < num_nodes_in,
                    node_out <= num_nodes_out,
                    forall|k: int|
                        0 <= k < self.layers@.len() && k != l ==> (#[trigger] self.gradients()[k])
                            == prior[k],
                    forall|i: int, o: int|
                        0 <= i < num_nodes_in && 0 <= o < num_nodes_out && (i < node_in || (i
                            == node_in && o < node_out)) ==> self.gradients()[l].weights[i][o]
                            == weight_gradient(unit, activation, base, training_data@, h, l, i, o),
                decreases num_nodes_out - node_out,
            {
                assert(layer.parameters().weights[node_in as int].len() == num_nodes_out);
                let kept = layer.weights[node_in][node_out];
                let ghost before = *self;
                let gradient = self.probe_weight(
                    training_data,
                    baseline_cost,
                    h,
                    layer_index,
                    node_in,
                    node_out,
                    kept,
                    unit,
                );
                let ghost probed = *self;
                self.set_weight_gradient(layer_index, node_in, node_out, gradient);
                proof {
                    assert(probed.same_widths(&before));
                    self.same_widths_fit_alike(&before, training_data@);
                    assert forall|k: int| 0 <= k < self.layers@.len() && k != l implies (
                    #[trigger] self.gradients()[k]) == prior[k] by {
                        assert(before.gradients()[k] == prior[k]);
                    }
                    assert forall|i: int, o: int|
                        0 <= i < num_nodes_in && 0 <= o < num_nodes_out && (i < node_in || (i
                            == node_in && o < node_out + 1)) implies self.gradients()[l].weights[i][o]
                        == weight_gradient(unit, activation, base, training_data@, h, l, i, o) by {
                        if i != node_in || o != node_out {
                            assert(before.gradients()[l].weights[i][o] == weight_gradient(
                                unit,
                                activation,
                                base,
                                training_data@,
                                h,
                                l,
                                i,
                                o,
                            ));
                        }
                    }
                }
                node_out += 1;
            }
            node_in += 1;
        }
        let mut node_out: usize = 0;
        while node_out < num_nodes_out
            invariant
                lawful(unit),
                self.wf(),
                self.same_widths(old(self)),
                self.fits_all(training_data@),
                self.parameters() == base,
                base == old(self).parameters(),
                activation == self.activation,
                prior == old(self).gradients(),
                l == layer_index,
                layer_index < self.layers@.len(),
                layer.parameters() == base[l],
                base[l].has_shape(num_nodes_in as nat, num_nodes_out as nat),
                num_nodes_in == self.layers@[l].num_nodes_in,
                num_nodes_out == self.layers@[l].num_nodes_out,
                baseline_cost == mean_cost(unit, activation, base, training_data@),
                node_out <= num_nodes_out,
                forall|k: int|
                    0 <= k < self.layers@.len() && k != l ==> (#[trigger] self.gradients()[k])
                        == prior[k],
                forall|i: int, o: int|
                    0 <= i < num_nodes_in && 0 <= o < num_nodes_out
                        ==> self.gradients()[l].weights[i][o] == weight_gradient(
                        unit,
                        activation,
                        base,
                        training_data@,
                        h,
                        l,
                        i,
                        o,
                    ),
                forall|o: int|
                    0 <= o < node_out ==> self.gradients()[l].biases[o] == bias_gradient(
                        unit,
                        activation,
                        base,
                        training_data@,
                        h,
                        l,
                        o,
                    ),
            decreases num_nodes_out - node_out,
        {
            let kept = layer.biases[node_out];
            let ghost before = *self;
            let gradient = self.probe_bias(
                training_data,
                baseline_cost,
                h,
                layer_index,
                node_out,
                kept,
                unit,
            );
            let ghost probed = *self;
            self.set_bias_gradient(layer_index, node_out, gradient);
            proof {
                assert(probed.same_widths(&before));
                self.same_widths_fit_alike(&before, training_data@);
                assert forall|k: int| 0 <= k < self.layers@.len() && k != l implies (
                #[trigger] self.gradients()[k]) == prior[k] by {
                    assert(before.gradients()[k] == prior[k]);
                }
                assert forall|i: int, o: int|
                    0 <= i < num_nodes_in && 0 <= o < num_nodes_out implies self.gradients()[l].weights[i][o]
                    == weight_gradient(unit, activation, base, training_data@, h, l, i, o) by {
                    assert(before.gradients()[l].weights[i][o] == weight_gradient(
                        unit,
                        activation,
                        base,
                        training_data@,
                        h,
                        l,
                        i,
                        o,
                    ));
                }
                assert forall|o: int| 0 <= o < node_out + 1 implies self.gradients()[l].biases[o]
                    == bias_gradient(unit, activation, base, training_data@, h, l, o) by {
                    if o != node_out {
                        assert(before.gradients()[l].biases[o] == bias_gradient(
                            unit,
                            activation,
                            base,
                            training_data@,
                            h,
                            l,
                            o,
                        ));
                    }
                }
            }
            node_out += 1;
        }
        proof {
            assert(self.layers@[l].wf());
            let got = self.gradients()[l];
            assert(got.has_shape(num_nodes_in as nat, num_nodes_out as nat));
            assert(got.biases =~= target[l].biases);
            assert forall|i: int| 0 <= i < num_nodes_in implies #[trigger] got.weights[i]
                =~= target[l].weights[i] by {
                assert(base[l].weights[i].len() == num_nodes_out);
            }
            assert(got.weights =~= target[l].weights);
        }
    }

    /// Estimates the gradient of one weight: the weight is raised by `h`,
    /// the cost is measured, and the weight is set back to `kept`, the
    /// value it had.
    fn probe_weight<F: Fn(Operation) -> u32>(
        &mut self,
        training_data: &Vec<DataPoint>,
        baseline_cost: u32,
        h: u32,
        layer_index: usize,
        node_in: usize,
        node_out: usize,
        kept: u32,
        unit: &F,
    ) -> (gradient: u32)
        requires
            old(self).wf(),
            old(self).fits_all(training_data@),
            lawful(unit),
            layer_index < old(self).layers@.len(),
            node_in < old(self).layers@[layer_index as int].num_nodes_in,
            node_out < old(self).layers@[layer_index as int].num_nodes_out,
            kept == old(self).parameters()[layer_index as int].weights[node_in as int][node_out as int],
            baseline_cost == mean_cost(
                unit,
                old(self).activation,
                old(self).parameters(),
                training_data@,
            ),
        ensures
            gradient == weight_gradient(
                unit,
                old(self).activation,
                old(self).parameters(),
                training_data@,
                h,
                layer_index as int,
                node_in as int,
                node_out as int,
            ),
            final(self).wf(),
            final(self).same_widths(old(self)),
            final(self).parameters() == old(self).parameters(),
            final(self).gradients() == old(self).gradients(),
    {
        let ghost base = self.parameters();
        let ghost l = layer_index as int;
        assert(self.layers@[l].wf());
        assert(base[l].weights[node_in as int].len() == self.layers@[l].num_nodes_out);
        self.set_weight(layer_index, node_in, node_out, perform(unit, Operation::Add(kept, h)));
        proof {
            self.same_widths_fit_alike(old(self), training_data@);
        }
        let ghost nudged = *self;
        let nudged_cost = self.measure(training_data, unit);
        proof {
            self.same_but_activations_keeps_the_rest(&nudged);
            assert(self.same_widths(old(self)));
        }
        self.set_weight(layer_index, node_in, node_out, kept);
        proof {
            assert(base[l].weights[node_in as int].update(
                node_out as int,
                sum(unit, kept, h),
            ).update(node_out as int, kept) =~= base[l].weights[node_in as int]);
            assert(with_entry(
                with_entry(base[l].weights, node_in as int, node_out as int, sum(unit, kept, h)),
                node_in as int,
                node_out as int,
                kept,
            ) =~= base[l].weights);
            assert(self.parameters() =~= base);
            assert(self.same_widths(old(self)));
        }
        let delta_cost = perform(unit, Operation::Sub(nudged_cost, baseline_cost));
        perform(unit, Operation::Div(delta_cost, h))
    }

    /// Estimates the gradient of one bias: the bias is raised by `h`, the
    /// cost is measured, and the bias is set back to `kept`, the value it
    /// had.
    fn probe_bias<F: Fn(Operation) -> u32>(
        &mut self,
        training_data: &Vec<DataPoint>,
        baseline_cost: u32,
        h: u32,
        layer_index: usize,
        node_out: usize,
        kept: u32,
        unit: &F,
    ) -> (gradient: u32)
        requires
            old(self).wf(),
            old(self).fits_all(training_data@),
            lawful(unit),
            layer_index < old(self).layers@.len(),
            node_out < old(self).layers@[layer_index as int].num_nodes_out,
            kept == old(self).parameters()[layer_index as int].biases[node_out as int],
            baseline_cost == mean_cost(
                unit,
                old(self).activation,
                old(self).parameters(),
                training_data@,
            ),
        ensures
            gradient == bias_gradient(
                unit,
                old(self).activation,
                old(self).parameters(),
                training_data@,
                h,
                layer_index as int,
                node_out as int,
            ),
            final(self).wf(),
            final(self).same_widths(old(self)),
            final(self).parameters() == old(self).parameters(),
            final(self).gradients() == old(self).gradients(),
    {
        let ghost base = self.parameters();
        let ghost l = layer_index as int;
        assert(self.layers@[l].wf());
        self.set_bias(layer_index, node_out, perform(unit, Operation::Add(kept, h)));
        proof {
            self.same_widths_fit_alike(old(self), training_data@);
        }
        let ghost nudged = *self;
        let nudged_cost = self.measure(training_data, unit);
        proof {
            self.same_but_activations_keeps_the_rest(&nudged);
            assert(self.same_widths(old(self)));
        }
        self.set_bias(layer_index, node_out, kept);
        proof {
            assert(base[l].biases.update(node_out as int, sum(unit, kept, h)).update(
                node_out as int,
                kept,
            ) =~= base[l].biases);
            assert(self.parameters() =~= base);
            assert(self.same_widths(old(self)));
        }
        let delta_cost = perform(unit, Operation::Sub(nudged_cost, baseline_cost));
        perform(unit, Operation::Div(delta_cost, h))
    }

    /// Replaces one weight.
    fn set_weight(&mut self, layer_index: usize, node_in: usize, node_out: usize, value: u32)
        requires
            old(self).wf(),
            layer_index < old(self).layers@.len(),
            node_in < old(self).layers@[layer_index as int].num_nodes_in,
            node_out < old(self).layers@[layer_index as int].num_nodes_out,
        ensures
            final(self).wf(),
            final(self).same_widths(old(self)),
            final(self).parameters() == with_weight(
                old(self).parameters(),
                layer_index as int,
                node_in as int,
                node_out as int,
                value,
            ),
            final(self).gradients() == old(self).gradients(),
    {
        let ghost before = self.layers@;
        assert(before[layer_index as int].wf());
        assert(before[layer_index as int].parameters().weights[node_in as int].len()
            == before[layer_index as int].num_nodes_out);
        set_entry(&mut self.layers[layer_index].weights, node_in, node_out, value);
        proof {
            self.kept_layers(old(self), layer_index as int);
            assert(self.parameters() =~= with_weight(
                old(self).parameters(),
                layer_index as int,
                node_in as int,
                node_out as int,
                value,
            ));
            assert(self.gradients() =~= old(self).gradients());
        }
    }

    /// Replaces one bias.
    fn set_bias(&mut self, layer_index: usize, node_out: usize, value: u32)
        requires
            old(self).wf(),
            layer_index < old(self).layers@.len(),
            node_out < old(self).layers@[layer_index as int].num_nodes_out,
        ensures
            final(self).wf(),
            final(self).same_widths(old(self)),
            final(self).parameters() == with_bias(
                old(self).parameters(),
                layer_index as int,
                node_out as int,
                value,
            ),
            final(self).gradients() == old(self).gradients(),
    {
        let ghost before = self.layers@;
        assert(before[layer_index as int].wf());
        self.layers[layer_index].biases[node_out] = value;
        proof {
            self.kept_layers(old(self), layer_index as int);
            assert(self.parameters() =~= with_bias(
                old(self).parameters(),
                layer_index as int,
                node_out as int,
                value,
            ));
            assert(self.gradients() =~= old(self).gradients());
        }
    }

    /// Replaces the gradient of one weight.
    fn set_weight_gradient(&mut self, layer_index: usize, node_in: usize, node_out: usize, value: u32)
        requires
            old(self).wf(),
            layer_index < old(self).layers@.len(),
            node_in < old(self).layers@[layer_index as int].num_nodes_in,
            node_out < old(self).layers@[layer_index as int].num_nodes_out,
        ensures
            final(self).wf(),
            final(self).same_widths(old(self)),
            final(self).parameters() == old(self).parameters(),
            final(self).gradients() == with_weight(
                old(self).gradients(),
                layer_index as int,
                node_in as int,
                node_out as int,
                value,
            ),
    {
        let ghost before = self.layers@;
        assert(before[layer_index as int].wf());
        assert(before[layer_index as int].gradients().weights[node_in as int].len()
            == before[layer_index as int].num_nodes_out);
        set_entry(&mut self.layers[layer_index].cost_gradient_weights, node_in, node_out, value);
        proof {
            self.kept_layers(old(self), layer_index as int);
            assert(self.gradients() =~= with_weight(
                old(self).gradients(),
                layer_index as int,
                node_in as int,
                node_out as int,
                value,
            ));
            assert(self.parameters() =~= old(self).parameters());
        }
    }

    /// Replaces the gradient of one bias.
    fn set_bias_gradient(&mut self, layer_index: usize, node_out: usize, value: u32)
        requires
            old(self).wf(),
            layer_index < old(self).layers@.len(),
            node_out < old(self).layers@[layer_index as int].num_nodes_out,
        ensures
            final(self).wf(),
            final(self).same_widths(old(self)),
            final(self).parameters() == old(self).parameters(),
            final(self).gradients() == with_bias(
                old(self).gradients(),
                layer_index as int,
                node_out as int,
                value,
            ),
    {
        let ghost before = self.layers@;
        assert(before[layer_index as int].wf());
        self.layers[layer_index].cost_gradient_biases[node_out] = value;
        proof {
            self.kept_layers(old(self), layer_index as int);
            assert(self.gradients() =~= with_bias(
                old(self).gradients(),
                layer_index as int,
                node_out as int,
                value,
            ));
            assert(self.parameters() =~= old(self).parameters());
        }
    }

    /// A network of which one layer was replaced by a well-formed layer of
    /// the same widths is well formed and has the widths it had.
    proof fn kept_layers(&self, before: &NeuralNetwork, layer_index: int)
        requires
            before.wf(),
            0 <= layer_index < before.layers@.len(),
            self.activation == before.activation,
            self.layers@.len() == before.layers@.len(),
            forall|k: int|
                0 <= k < before.layers@.len() && k != layer_index ==> self.layers@[k]
                    == before.layers@[k],
            self.layers@[layer_index].wf(),
            self.layers@[layer_index].num_nodes_in == before.layers@[layer_index].num_nodes_in,
            self.layers@[layer_index].num_nodes_out == before.layers@[layer_index].num_nodes_out,
        ensures
            self.wf(),
            self.same_widths(before),
    {
        assert forall|k: int| 0 <= k < self.layers@.len() implies (#[trigger] self.layers@[k]).wf() by {
            if k != layer_index {
                assert(before.layers@[k].wf());
            }
        }
        assert forall|k: int| 0 <= k < self.layers@.len() - 1 implies (
        #[trigger] self.layers@[k]).num_nodes_out == self.layers@[k + 1].num_nodes_in by {
            assert(before.layers@[k].num_nodes_out == before.layers@[k + 1].num_nodes_in);
        }
        assert forall|k: int| 0 <= k < self.layers@.len() implies (
        #[trigger] self.layers@[k]).num_nodes_in == before.layers@[k].num_nodes_in
            && self.layers@[k].num_nodes_out == before.layers@[k].num_nodes_out by {}
    }

    /// Moves the parameters of every layer against their gradients.
    fn apply_all_gradients<F: Fn(Operation) -> u32>(&mut self, learn_rate: u32, unit: &F)
        requires
            old(self).wf(),
            lawful(unit),
        ensures
            final(self).wf(),
            final(self).same_widths(old(self)),
            final(self).gradients() == old(self).gradients(),
            final(self).parameters() == descended_all(
                unit,
                old(self).parameters(),
                old(self).gradients(),
                learn_rate,
            ),
    {
        let ghost base = self.parameters();
        let ghost gradients = self.gradients();
        let mut l: usize = 0;
        while l < self.layers.len()
            invariant
                lawful(unit),
                self.wf(),
                self.same_widths(old(self)),
                base == old(self).parameters(),
                gradients == old(self).gradients(),
                self.gradients() == gradients,
                l <= self.layers@.len(),
                forall|k: int|
                    0 <= k < self.layers@.len() ==> (#[trigger] self.parameters()[k]) == if k < l {
                        descended(unit, base[k], gradients[k], learn_rate)
                    } else {
                        base[k]
                    },
            decreases self.layers@.len() - l,
        {
            let ghost before = *self;
            assert(before.layers@[l as int].wf());
            assert(before.parameters()[l as int] == base[l as int]);
            assert(before.gradients()[l as int] == gradients[l as int]);
            self.layers[l].apply_gradients(learn_rate, unit);
            proof {
                self.kept_layers(&before, l as int);
                assert(self.gradients() =~= gradients);
                assert forall|k: int| 0 <= k < self.layers@.len() implies (
                #[trigger] self.parameters()[k]) == if k < l + 1 {
                    descended(unit, base[k], gradients[k], learn_rate)
                } else {
                    base[k]
                } by {
                    if k != l {
                        assert(before.parameters()[k] == self.parameters()[k]);
                    }
                }
                assert forall|k: int| 0 <= k < self.layers@.len() implies (
                #[trigger] self.layers@[k]).num_nodes_in == old(self).layers@[k].num_nodes_in
                    && self.layers@[k].num_nodes_out == old(self).layers@[k].num_nodes_out by {
                    assert(before.layers@[k].num_nodes_in == old(self).layers@[k].num_nodes_in);
                }
            }
            l += 1;
        }
        assert(self.parameters() =~= descended_all(unit, base, gradients, learn_rate));
    }
}

/// A copy of a matrix.
fn copy_of_rows(matrix: &Vec<Vec<u32>>) -> (copy: Vec<Vec<u32>>)
    ensures
        rows(copy@) == rows(matrix@),
{
    let mut copy: Vec<Vec<u32>> = Vec::new();
    let mut i: usize = 0;
    while i < matrix.len()
        invariant
            i <= matrix@.len(),
            copy@.len() == i,
            forall|k: int| 0 <= k < i ==> (#[trigger] copy@[k])@ == matrix@[k]@,
        decreases matrix@.len() - i,
    {
        copy.push(copy_of(&matrix[i]));
        i += 1;
    }
    assert(rows(copy@) =~= rows(matrix@));
    copy
}

} // verus!
