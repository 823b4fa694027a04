use neural_net::activation::Activation;
use neural_net::arithmetic::Operation;
use neural_net::error::NetworkError;
use neural_net::layer::Layer;
use neural_net::layer::WEIGHT_BOUNDARY;
use neural_net::random::RandomNumbers;

fn f(bits: u32) -> f32 {
    f32::from_bits(bits)
}

fn unit(op: Operation) -> u32 {
    match op {
        Operation::Add(a, b) => (f(a) + f(b)).to_bits(),
        Operation::Sub(a, b) => (f(a) - f(b)).to_bits(),
        Operation::Mul(a, b) => (f(a) * f(b)).to_bits(),
        Operation::Div(a, b) => (f(a) / f(b)).to_bits(),
        Operation::Max(a, b) => f(a).max(f(b)).to_bits(),
        Operation::Neg(a) => (-f(a)).to_bits(),
        Operation::Exp(a) => f(a).exp().to_bits(),
        Operation::Pow(a, b) => f(a).powf(f(b)).to_bits(),
        Operation::FromInt(n) => (n as f32).to_bits(),
    }
}

fn bits(values: &[f32]) -> Vec<u32> {
    values.iter().map(|value| value.to_bits()).collect()
}

fn floats(values: &[u32]) -> Vec<f32> {
    values.iter().map(|value| f(*value)).collect()
}

fn xorshift(state: u64) -> u64 {
    let mut random = state;
    random ^= random << 13;
    random ^= random >> 17;
    random ^= random << 5;
    random
}

fn layer_2_to_3() -> Layer {
    Layer {
        num_nodes_in: 2,
        num_nodes_out: 3,
        cost_gradient_weights: vec![bits(&[0.5, -1.0, 0.0]), bits(&[2.0, 0.25, -4.0])],
        cost_gradient_biases: bits(&[1.0, -2.0, 0.5]),
        weights: vec![bits(&[0.1, -0.2, 0.3]), bits(&[0.4, 0.5, -0.6])],
        biases: bits(&[0.01, -0.02, 0.03]),
        activations: bits(&[9.0, 9.0, 9.0]),
    }
}

#[test]
fn weight_boundary_is_two() {
    assert_eq!(f(WEIGHT_BOUNDARY), 2.0);
}

#[test]
fn new_layer_has_its_shapes() {
    for (num_in, num_out) in [(0usize, 0usize), (0, 3), (3, 0), (1, 1), (2, 3), (5, 4)] {
        let layer = Layer::new(num_in, num_out, &unit);
        assert!(layer.is_well_formed());
        assert_eq!(layer.num_nodes_in, num_in);
        assert_eq!(layer.num_nodes_out, num_out);
        assert_eq!(layer.weights.len(), num_in);
        assert!(layer.weights.iter().all(|row| row.len() == num_out));
        assert_eq!(layer.biases.len(), num_out);
        assert_eq!(layer.cost_gradient_weights.len(), num_in);
        assert!(layer.cost_gradient_weights.iter().all(|row| row.len() == num_out));
        assert_eq!(layer.cost_gradient_biases.len(), num_out);
        assert_eq!(layer.activations.len(), num_out);
    }
}

#[test]
fn new_layer_lies_within_the_boundary() {
    for _ in 0..20 {
        let layer = Layer::new(6, 5, &unit);
        for row in &layer.weights {
            for weight in floats(row) {
                assert!((-2.0..=2.0).contains(&weight), "{}", weight);
            }
        }
        for bias in floats(&layer.biases) {
            assert!((-2.0..=2.0).contains(&bias), "{}", bias);
        }
    }
}

#[test]
fn new_layer_starts_with_zero_gradients_and_outputs() {
    let layer = Layer::new(3, 2, &unit);
    for row in &layer.cost_gradient_weights {
        assert_eq!(floats(row), vec![0.0, 0.0]);
    }
    assert_eq!(floats(&layer.cost_gradient_biases), vec![0.0, 0.0]);
    assert_eq!(floats(&layer.activations), vec![0.0, 0.0]);
}

#[test]
fn remap_follows_its_formula() {
    for draw in [0u64, 1, 270369, u64::MAX / 4, u64::MAX / 2, u64::MAX - 1, u64::MAX] {
        let expected = -2.0f32 + draw as f32 / u64::MAX as f32 * (2.0f32 - -2.0f32);
        assert_eq!(f(Layer::remap(draw, &unit)), expected);
    }
    assert_eq!(f(Layer::remap(0, &unit)), -2.0);
    assert_eq!(f(Layer::remap(u64::MAX, &unit)), 2.0);
    assert_eq!(f(Layer::remap(1u64 << 63, &unit)), 0.0);
    assert_eq!(f(Layer::remap(1u64 << 62, &unit)), -1.0);
}

#[test]
fn layer_from_a_seed_draws_weights_then_biases() {
    let mut source = RandomNumbers::seeded(42);
    let layer = Layer::from_source(2, 3, &mut source, &unit);
    let mut state: u64 = 42;
    for node_in in 0..2 {
        for node_out in 0..3 {
            state = xorshift(state);
            let expected = -2.0f32 + state as f32 / u64::MAX as f32 * 4.0f32;
            assert_eq!(f(layer.weights[node_in][node_out]), expected);
        }
    }
    for node_out in 0..3 {
        state = xorshift(state);
        let expected = -2.0f32 + state as f32 / u64::MAX as f32 * 4.0f32;
        assert_eq!(f(layer.biases[node_out]), expected);
    }
    assert_eq!(source.next(), Some(xorshift(state)));
}

#[test]
fn layer_from_the_same_seed_is_the_same() {
    let first = Layer::from_source(4, 3, &mut RandomNumbers::seeded(7), &unit);
    let second = Layer::from_source(4, 3, &mut RandomNumbers::seeded(7), &unit);
    assert_eq!(first.weights, second.weights);
    assert_eq!(first.biases, second.biases);
}

#[test]
fn calculate_outputs_follows_its_formula() {
    let mut layer = layer_2_to_3();
    let inputs = [0.7f32, -1.3f32];
    let done = layer.calculate_outputs(bits(&inputs), &Activation::Sigmoid, &unit);
    assert_eq!(done, Ok(()));
    let weights = [[0.1f32, -0.2, 0.3], [0.4, 0.5, -0.6]];
    let biases = [0.01f32, -0.02, 0.03];
    for node_out in 0..3 {
        let mut weighted_input = biases[node_out];
        for node_in in 0..2 {
            weighted_input += inputs[node_in] * weights[node_in][node_out];
        }
        let expected = 1.0 / (1.0 + (-weighted_input).exp());
        assert_eq!(f(layer.activations[node_out]), expected);
    }
}

#[test]
fn calculate_outputs_with_relu_in_round_numbers() {
    let mut layer = Layer {
        num_nodes_in: 2,
        num_nodes_out: 2,
        cost_gradient_weights: vec![bits(&[0.0, 0.0]), bits(&[0.0, 0.0])],
        cost_gradient_biases: bits(&[0.0, 0.0]),
        weights: vec![bits(&[1.0, -1.0]), bits(&[2.0, -2.0])],
        biases: bits(&[0.5, 0.25]),
        activations: bits(&[0.0, 0.0]),
    };
    let done = layer.calculate_outputs(bits(&[3.0, 4.0]), &Activation::ReLU, &unit);
    assert_eq!(done, Ok(()));
    assert_eq!(floats(&layer.activations), vec![11.5, 0.0]);
}

#[test]
fn calculate_outputs_overwrites_the_kept_outputs() {
    let mut layer = layer_2_to_3();
    layer.calculate_outputs(bits(&[1.0, 1.0]), &Activation::TanH, &unit).unwrap();
    let first = layer.activations.clone();
    layer.calculate_outputs(bits(&[-1.0, 0.5]), &Activation::TanH, &unit).unwrap();
    assert_eq!(layer.activations.len(), 3);
    assert_ne!(layer.activations, first);
    layer.calculate_outputs(bits(&[1.0, 1.0]), &Activation::TanH, &unit).unwrap();
    assert_eq!(layer.activations, first);
}

#[test]
fn layer_refuses_inputs_of_another_length() {
    for inputs in [bits(&[]), bits(&[1.0]), bits(&[1.0, 2.0, 3.0])] {
        let mut layer = layer_2_to_3();
        let done = layer.calculate_outputs(inputs, &Activation::Sigmoid, &unit);
        assert_eq!(done, Err(NetworkError::ShapeMismatch));
        assert_eq!(floats(&layer.activations), vec![9.0, 9.0, 9.0]);
        assert_eq!(layer.weights, layer_2_to_3().weights);
        assert_eq!(layer.biases, layer_2_to_3().biases);
    }
}

#[test]
fn calculate_outputs_leaves_parameters_and_gradients() {
    let mut layer = layer_2_to_3();
    layer.calculate_outputs(bits(&[0.3, 0.9]), &Activation::SiLU, &unit).unwrap();
    let untouched = layer_2_to_3();
    assert_eq!(layer.weights, untouched.weights);
    assert_eq!(layer.biases, untouched.biases);
    assert_eq!(layer.cost_gradient_weights, untouched.cost_gradient_weights);
    assert_eq!(layer.cost_gradient_biases, untouched.cost_gradient_biases);
}

#[test]
fn node_cost_is_the_squared_error() {
    let layer = layer_2_to_3();
    assert_eq!(f(layer.node_cost(3.0f32.to_bits(), 1.0f32.to_bits(), &unit)), 4.0);
    assert_eq!(f(layer.node_cost(1.0f32.to_bits(), 3.0f32.to_bits(), &unit)), 4.0);
    assert_eq!(f(layer.node_cost(0.75f32.to_bits(), 0.75f32.to_bits(), &unit)), 0.0);
    let error = 0.3f32 - 1.0f32;
    assert_eq!(f(layer.node_cost(0.3f32.to_bits(), 1.0f32.to_bits(), &unit)), error * error);
}

#[test]
fn node_cost_derivative_is_twice_the_error() {
    let layer = layer_2_to_3();
    assert_eq!(f(layer.node_cost_derivative(3.0f32.to_bits(), 1.0f32.to_bits(), &unit)), 4.0);
    assert_eq!(f(layer.node_cost_derivative(1.0f32.to_bits(), 3.0f32.to_bits(), &unit)), -4.0);
    assert_eq!(
        f(layer.node_cost_derivative(0.3f32.to_bits(), 1.0f32.to_bits(), &unit)),
        2.0 * (0.3f32 - 1.0f32)
    );
}

#[test]
fn apply_gradients_steps_against_each_gradient() {
    let mut layer = layer_2_to_3();
    let learn_rate = 0.1f32;
    layer.apply_gradients(learn_rate.to_bits(), &unit);
    let before = layer_2_to_3();
    for node_in in 0..2 {
        for node_out in 0..3 {
            let expected = f(before.weights[node_in][node_out])
                - f(before.cost_gradient_weights[node_in][node_out]) * learn_rate;
            assert_eq!(f(layer.weights[node_in][node_out]), expected);
        }
    }
    for node_out in 0..3 {
        let expected = f(before.biases[node_out]) - f(before.cost_gradient_biases[node_out]) * learn_rate;
        assert_eq!(f(layer.biases[node_out]), expected);
    }
    assert_eq!(layer.cost_gradient_weights, before.cost_gradient_weights);
    assert_eq!(layer.cost_gradient_biases, before.cost_gradient_biases);
    assert_eq!(layer.activations, before.activations);
}

#[test]
fn apply_gradients_in_round_numbers() {
    let mut layer = Layer {
        num_nodes_in: 1,
        num_nodes_out: 1,
        cost_gradient_weights: vec![bits(&[4.0])],
        cost_gradient_biases: bits(&[-2.0]),
        weights: vec![bits(&[1.0])],
        biases: bits(&[1.0]),
        activations: bits(&[0.0]),
    };
    layer.apply_gradients(0.5f32.to_bits(), &unit);
    assert_eq!(f(layer.weights[0][0]), -1.0);
    assert_eq!(f(layer.biases[0]), 2.0);
}

#[test]
fn negative_learn_rate_steps_along_the_gradient() {
    let mut layer = Layer {
        num_nodes_in: 1,
        num_nodes_out: 1,
        cost_gradient_weights: vec![bits(&[4.0])],
        cost_gradient_biases: bits(&[-2.0]),
        weights: vec![bits(&[1.0])],
        biases: bits(&[1.0]),
        activations: bits(&[0.0]),
    };
    layer.apply_gradients((-0.5f32).to_bits(), &unit);
    assert_eq!(f(layer.weights[0][0]), 3.0);
    assert_eq!(f(layer.biases[0]), 0.0);
}

#[test]
fn ragged_layer_is_not_well_formed() {
    let mut layer = layer_2_to_3();
    assert!(layer.is_well_formed());
    layer.weights[1].pop();
    assert!(!layer.is_well_formed());
    let mut layer = layer_2_to_3();
    layer.biases.push(0);
    assert!(!layer.is_well_formed());
    let mut layer = layer_2_to_3();
    layer.cost_gradient_weights.pop();
    assert!(!layer.is_well_formed());
    let mut layer = layer_2_to_3();
    layer.activations.clear();
    assert!(!layer.is_well_formed());
}
