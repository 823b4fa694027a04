use neural_net::activation::Activation;
use neural_net::activation::ActivationType;
use neural_net::arithmetic::Operation;
use neural_net::data_point::DataPoint;
use neural_net::error::NetworkError;
use neural_net::layer::Layer;
use neural_net::neural_network::winner;
use neural_net::neural_network::NeuralNetwork;
use neural_net::random::RandomNumbers;

fn f(bits: u32) -> f32 {
    f32::from_bits(bits)
}

fn unit(op: Operation) -> u32 {
    match op {
        Operation::Add(a, b) => (f(a) + f(b)).to_bits(),
        Operation::Sub(a, b) => (f(a) - f(b)).to_bits(),
        Operation::Mul(a, b) => (f(a) * f(b)).to_bits(),
        Operation::Div(a, b) => (f(a) / f(b)).to_bits(),
        Operation::Max(a, b) => f(a).max(f(b)).to_bits(),
        Operation::Neg(a) => (-f(a)).to_bits(),
        Operation::Exp(a) => f(a).exp().to_bits(),
        Operation::Pow(a, b) => f(a).powf(f(b)).to_bits(),
        Operation::FromInt(n) => (n as f32).to_bits(),
    }
}

fn bits(values: &[f32]) -> Vec<u32> {
    values.iter().map(|value| value.to_bits()).collect()
}

fn floats(values: &[u32]) -> Vec<f32> {
    values.iter().map(|value| f(*value)).collect()
}

fn layer(weights: &[&[f32]], biases: &[f32]) -> Layer {
    let num_nodes_out = biases.len();
    Layer {
        num_nodes_in: weights.len(),
        num_nodes_out,
        cost_gradient_weights: weights.iter().map(|_| vec![0; num_nodes_out]).collect(),
        cost_gradient_biases: vec![0; num_nodes_out],
        weights: weights.iter().map(|row| bits(row)).collect(),
        biases: bits(biases),
        activations: vec![0; num_nodes_out],
    }
}

fn network_2_3_2(activation: Activation) -> NeuralNetwork {
    NeuralNetwork {
        layers: vec![
            layer(&[&[0.1, -0.2, 0.3], &[0.4, 0.5, -0.6]], &[0.01, -0.02, 0.03]),
            layer(&[&[0.7, -0.8], &[-0.9, 1.0], &[1.1, -1.2]], &[0.04, -0.05]),
        ],
        activation,
    }
}

fn without_layers() -> NeuralNetwork {
    NeuralNetwork { layers: Vec::new(), activation: Activation::Sigmoid }
}

fn sigmoid(x: f32) -> f32 {
    1.0 / (1.0 + (-x).exp())
}

fn outputs_by_hand(inputs: [f32; 2]) -> [f32; 2] {
    let w1 = [[0.1f32, -0.2, 0.3], [0.4, 0.5, -0.6]];
    let b1 = [0.01f32, -0.02, 0.03];
    let w2 = [[0.7f32, -0.8], [-0.9, 1.0], [1.1, -1.2]];
    let b2 = [0.04f32, -0.05];
    let mut hidden = [0.0f32; 3];
    for o in 0..3 {
        let mut weighted_input = b1[o];
        for i in 0..2 {
            weighted_input += inputs[i] * w1[i][o];
        }
        hidden[o] = sigmoid(weighted_input);
    }
    let mut outputs = [0.0f32; 2];
    for o in 0..2 {
        let mut weighted_input = b2[o];
        for i in 0..3 {
            weighted_input += hidden[i] * w2[i][o];
        }
        outputs[o] = sigmoid(weighted_input);
    }
    outputs
}

fn cost_by_hand(points: &[([f32; 2], usize)]) -> f32 {
    let mut total_cost = 0.0f32;
    for (inputs, label) in points {
        let outputs = outputs_by_hand(*inputs);
        let mut cost = 0.0f32;
        for o in 0..2 {
            let expected = if o == *label { 1.0f32 } else { 0.0f32 };
            let error = outputs[o] - expected;
            cost += error * error;
        }
        total_cost += cost;
    }
    total_cost / points.len() as f32
}

fn data(points: &[([f32; 2], usize)]) -> Vec<DataPoint> {
    points.iter().map(|(inputs, label)| DataPoint::new(bits(inputs), *label, 2).unwrap()).collect()
}

#[test]
fn new_network_of_2_3_2_has_two_layers() {
    let network = NeuralNetwork::new(vec![2, 3, 2], &ActivationType::SIGMOID, &unit);
    assert_eq!(network.layers.len(), 2);
    assert_eq!(network.layers[0].num_nodes_in, 2);
    assert_eq!(network.layers[0].num_nodes_out, 3);
    assert_eq!(network.layers[1].num_nodes_in, 3);
    assert_eq!(network.layers[1].num_nodes_out, 2);
    assert_eq!(network.activation, Activation::Sigmoid);
    assert!(network.is_well_formed());
    assert_eq!(network.layers[0].weights.len(), 2);
    assert!(network.layers[0].weights.iter().all(|row| row.len() == 3));
    assert_eq!(network.layers[0].biases.len(), 3);
    assert_eq!(network.layers[1].weights.len(), 3);
    assert!(network.layers[1].weights.iter().all(|row| row.len() == 2));
    assert_eq!(network.layers[1].biases.len(), 2);
}

#[test]
fn new_network_of_2_3_2_gives_two_outputs() {
    let mut network = NeuralNetwork::new(vec![2, 3, 2], &ActivationType::SIGMOID, &unit);
    for inputs in [[0.0f32, 0.0], [0.1, 0.2], [-5.0, 7.0], [1.0e30, -1.0e30]] {
        let outputs = network.calculate_outputs(bits(&inputs), &unit).unwrap();
        assert_eq!(outputs.len(), 2);
    }
}

#[test]
fn new_network_takes_each_activation() {
    let pairs = [
        (ActivationType::SIGMOID, Activation::Sigmoid),
        (ActivationType::TANH, Activation::TanH),
        (ActivationType::RELU, Activation::ReLU),
        (ActivationType::SILU, Activation::SiLU),
    ];
    for (name, activation) in pairs {
        assert_eq!(NeuralNetwork::new(vec![1, 1], &name, &unit).activation, activation);
    }
}

#[test]
fn new_network_of_fewer_than_two_widths_has_no_layers() {
    assert_eq!(NeuralNetwork::new(vec![], &ActivationType::RELU, &unit).layers.len(), 0);
    assert_eq!(NeuralNetwork::new(vec![4], &ActivationType::RELU, &unit).layers.len(), 0);
    assert_eq!(NeuralNetwork::new(vec![4, 1], &ActivationType::RELU, &unit).layers.len(), 1);
}

#[test]
fn calculate_outputs_threads_the_layers() {
    let mut network = network_2_3_2(Activation::Sigmoid);
    for inputs in [[0.7f32, -1.3], [0.0, 0.0], [2.5, 0.125]] {
        let outputs = network.calculate_outputs(bits(&inputs), &unit).unwrap();
        assert_eq!(floats(&outputs), outputs_by_hand(inputs).to_vec());
        assert_eq!(network.layers[1].activations, outputs);
        assert_eq!(network.layers[0].activations.len(), 3);
    }
}

#[test]
fn network_refuses_inputs_of_another_length() {
    let mut network = network_2_3_2(Activation::Sigmoid);
    for inputs in [bits(&[]), bits(&[1.0]), bits(&[1.0, 2.0, 3.0])] {
        assert_eq!(network.calculate_outputs(inputs, &unit), Err(NetworkError::ShapeMismatch));
        assert_eq!(floats(&network.layers[0].activations), vec![0.0, 0.0, 0.0]);
        assert_eq!(floats(&network.layers[1].activations), vec![0.0, 0.0]);
    }
}

#[test]
fn network_without_layers_hands_the_inputs_back() {
    let mut network = without_layers();
    let outputs = network.calculate_outputs(bits(&[0.5, -0.5, 3.0]), &unit).unwrap();
    assert_eq!(floats(&outputs), vec![0.5, -0.5, 3.0]);
}

#[test]
fn classify_names_the_highest_output() {
    let mut network = network_2_3_2(Activation::Sigmoid);
    for inputs in [[0.7f32, -1.3], [0.0, 0.0], [2.5, 0.125], [-4.0, 4.0]] {
        let outputs = outputs_by_hand(inputs);
        let expected = if outputs[1] > outputs[0] { 1 } else { 0 };
        assert_eq!(network.classify(bits(&inputs), &unit), Ok(Some(expected)));
    }
}

#[test]
fn classify_stays_below_the_output_width() {
    for width in 1..6usize {
        let mut network = NeuralNetwork::new(vec![3, 4, width], &ActivationType::TANH, &unit);
        for inputs in [[0.0f32, 0.0, 0.0], [1.0, -2.0, 3.0], [-0.5, 0.25, 8.0]] {
            let class = network.classify(bits(&inputs), &unit).unwrap().unwrap();
            assert!(class < width);
        }
    }
}

#[test]
fn classify_prefers_the_first_of_equal_outputs() {
    let mut network = without_layers();
    assert_eq!(network.classify(bits(&[1.0, 3.0, 3.0, 2.0, 3.0]), &unit), Ok(Some(1)));
    assert_eq!(network.classify(bits(&[5.0, 5.0]), &unit), Ok(Some(0)));
    assert_eq!(network.classify(bits(&[-1.0]), &unit), Ok(Some(0)));
    assert_eq!(network.classify(bits(&[0.0, 0.0, 0.0]), &unit), Ok(Some(0)));
}

#[test]
fn classify_orders_all_values() {
    let mut network = without_layers();
    assert_eq!(network.classify(bits(&[-0.0, 0.0]), &unit), Ok(Some(1)));
    assert_eq!(network.classify(bits(&[0.0, -0.0]), &unit), Ok(Some(0)));
    assert_eq!(network.classify(bits(&[f32::NEG_INFINITY, -1.0e30]), &unit), Ok(Some(1)));
    assert_eq!(network.classify(bits(&[1.0, f32::INFINITY, 2.0]), &unit), Ok(Some(1)));
    assert_eq!(network.classify(bits(&[-3.0, -2.0, -2.5]), &unit), Ok(Some(1)));
    assert_eq!(network.classify(bits(&[f32::INFINITY, f32::NAN]), &unit), Ok(Some(1)));
}

#[test]
fn classify_without_outputs_names_none() {
    let mut network = without_layers();
    assert_eq!(network.classify(Vec::new(), &unit), Ok(None));
    let mut empty = NeuralNetwork::new(vec![2, 0], &ActivationType::SIGMOID, &unit);
    assert_eq!(empty.classify(bits(&[1.0, 2.0]), &unit), Ok(None));
}

#[test]
fn classify_refuses_inputs_of_another_length() {
    let mut network = network_2_3_2(Activation::Sigmoid);
    assert_eq!(network.classify(bits(&[1.0]), &unit), Err(NetworkError::ShapeMismatch));
}

#[test]
fn winner_is_the_first_maximum() {
    assert_eq!(winner(&Vec::new()), None);
    assert_eq!(winner(&bits(&[0.25])), Some(0));
    assert_eq!(winner(&bits(&[0.25, 0.75, 0.5])), Some(1));
    assert_eq!(winner(&bits(&[0.75, 0.75, 0.5])), Some(0));
    assert_eq!(winner(&bits(&[0.1, 0.2, 0.3, 0.3])), Some(2));
}

#[test]
fn cost_is_the_mean_of_the_squared_errors() {
    let mut network = network_2_3_2(Activation::Sigmoid);
    let points = [([0.7f32, -1.3f32], 1usize), ([0.0, 0.0], 0), ([2.5, 0.125], 1)];
    let cost = network.cost(&data(&points), &unit).unwrap();
    assert_eq!(f(cost), cost_by_hand(&points));
    let one = [([0.7f32, -1.3f32], 0usize)];
    assert_eq!(f(network.cost(&data(&one), &unit).unwrap()), cost_by_hand(&one));
}

#[test]
fn cost_in_round_numbers() {
    let mut network = without_layers();
    let points = vec![
        DataPoint::new(bits(&[3.0, 1.0]), 1, 2).unwrap(),
        DataPoint::new(bits(&[1.0, 2.0]), 0, 2).unwrap(),
    ];
    // (3 - 0)^2 + (1 - 1)^2 = 9; (1 - 1)^2 + (2 - 0)^2 = 4; mean 6.5
    assert_eq!(f(network.cost(&points, &unit).unwrap()), 6.5);
}

#[test]
fn cost_is_never_negative() {
    for seed in 0..10 {
        let mut network = NeuralNetwork::new(vec![2, 3, 2], &ActivationType::SIGMOID, &unit);
        let points = [
            ([0.1f32 * seed as f32, 0.9], 0usize),
            ([0.5, -0.25 * seed as f32], 1),
            ([1.0, 1.0], 1),
        ];
        assert!(f(network.cost(&data(&points), &unit).unwrap()) >= 0.0);
    }
}

#[test]
fn cost_of_exact_outputs_is_zero() {
    let mut network = without_layers();
    let points = vec![
        DataPoint::new(bits(&[0.0, 1.0]), 1, 2).unwrap(),
        DataPoint::new(bits(&[1.0, 0.0]), 0, 2).unwrap(),
        DataPoint::new(bits(&[0.0, 1.0]), 1, 2).unwrap(),
    ];
    assert_eq!(f(network.cost(&points, &unit).unwrap()), 0.0);

    let mut identity = NeuralNetwork {
        layers: vec![layer(&[&[1.0, 0.0], &[0.0, 1.0]], &[0.0, 0.0])],
        activation: Activation::ReLU,
    };
    assert_eq!(f(identity.cost(&points, &unit).unwrap()), 0.0);
}

#[test]
fn cost_of_no_data_is_zero() {
    let mut network = network_2_3_2(Activation::Sigmoid);
    assert_eq!(network.cost(&Vec::new(), &unit), Ok(0.0f32.to_bits()));
}

#[test]
fn cost_refuses_a_point_of_another_length() {
    let mut network = network_2_3_2(Activation::Sigmoid);
    let points = vec![
        DataPoint::new(bits(&[0.1, 0.2]), 1, 2).unwrap(),
        DataPoint::new(bits(&[0.1, 0.2, 0.3]), 1, 2).unwrap(),
    ];
    assert_eq!(network.cost(&points, &unit), Err(NetworkError::ShapeMismatch));
    assert_eq!(floats(&network.layers[0].activations), vec![0.0, 0.0, 0.0]);
    assert!(!network.accepts(&points));
}

#[test]
fn cost_refuses_a_point_with_too_few_expected_outputs() {
    let mut network = network_2_3_2(Activation::Sigmoid);
    let points = vec![DataPoint::new(bits(&[0.1, 0.2]), 0, 1).unwrap()];
    assert_eq!(network.cost(&points, &unit), Err(NetworkError::ShapeMismatch));
    let more = vec![DataPoint::new(bits(&[0.1, 0.2]), 0, 3).unwrap()];
    assert!(network.accepts(&more));
    assert!(network.cost(&more, &unit).is_ok());
}

#[test]
fn cost_keeps_the_pass_of_the_last_point() {
    let mut network = network_2_3_2(Activation::Sigmoid);
    let points = [([0.7f32, -1.3f32], 1usize), ([2.5, 0.125], 0)];
    network.cost(&data(&points), &unit).unwrap();
    assert_eq!(floats(&network.layers[1].activations), outputs_by_hand([2.5, 0.125]).to_vec());
}

#[test]
fn broken_chain_is_not_well_formed() {
    let mut network = network_2_3_2(Activation::Sigmoid);
    assert!(network.is_well_formed());
    network.layers[1] = layer(&[&[0.7, -0.8], &[-0.9, 1.0]], &[0.04, -0.05]);
    assert!(!network.is_well_formed());
    let mut network = network_2_3_2(Activation::Sigmoid);
    network.layers[0].weights[0].push(0);
    assert!(!network.is_well_formed());
}

#[test]
fn network_from_a_seed_draws_layer_by_layer() {
    let mut source = RandomNumbers::seeded(2024);
    let network = NeuralNetwork::from_source(vec![2, 3, 2], &ActivationType::TANH, &mut source, &unit);
    let mut again = RandomNumbers::seeded(2024);
    let first = Layer::from_source(2, 3, &mut again, &unit);
    let second = Layer::from_source(3, 2, &mut again, &unit);
    assert_eq!(network.layers.len(), 2);
    assert_eq!(network.layers[0].weights, first.weights);
    assert_eq!(network.layers[0].biases, first.biases);
    assert_eq!(network.layers[1].weights, second.weights);
    assert_eq!(network.layers[1].biases, second.biases);
    assert_eq!(source.next(), again.next());
    assert_eq!(network.activation, Activation::TanH);
    assert!(network.is_well_formed());
}

#[test]
fn network_from_a_seed_lies_within_the_boundary() {
    for seed in 1..30u64 {
        let mut source = RandomNumbers::seeded(seed.wrapping_mul(0x9E37_79B9_7F4A_7C15));
        let network = NeuralNetwork::from_source(vec![3, 4, 2], &ActivationType::RELU, &mut source, &unit);
        for layer in &network.layers {
            for row in &layer.weights {
                assert!(floats(row).iter().all(|weight| (-2.0..=2.0).contains(weight)));
            }
            assert!(floats(&layer.biases).iter().all(|bias| (-2.0..=2.0).contains(bias)));
            assert!(floats(&layer.cost_gradient_biases).iter().all(|gradient| *gradient == 0.0));
        }
    }
}

#[test]
fn arithmetic_is_exact_on_zero_and_one() {
    assert_eq!(unit(Operation::Sub(0.0f32.to_bits(), 0.0f32.to_bits())), 0.0f32.to_bits());
    assert_eq!(unit(Operation::Sub(1.0f32.to_bits(), 1.0f32.to_bits())), 0.0f32.to_bits());
    assert_eq!(unit(Operation::Mul(0.0f32.to_bits(), 0.0f32.to_bits())), 0.0f32.to_bits());
    assert_eq!(unit(Operation::Add(0.0f32.to_bits(), 0.0f32.to_bits())), 0.0f32.to_bits());
    for count in [1u64, 2, 3, 65, 1 << 40, u64::MAX] {
        let divisor = unit(Operation::FromInt(count));
        assert_eq!(unit(Operation::Div(0.0f32.to_bits(), divisor)), 0.0f32.to_bits());
    }
}

#[test]
fn arithmetic_keeps_signs() {
    let numbers = [
        f32::NEG_INFINITY,
        f32::MIN,
        -1.5,
        -1.0e-45,
        -0.0,
        0.0,
        1.0e-45,
        0.3,
        1.0,
        f32::MAX,
        f32::INFINITY,
    ];
    let not_negative = |bits: u32| bits <= f32::INFINITY.to_bits();
    for e in numbers {
        assert!(not_negative(unit(Operation::Mul(e.to_bits(), e.to_bits()))), "{}", e);
    }
    for a in numbers {
        for b in numbers {
            if not_negative(a.to_bits()) && not_negative(b.to_bits()) {
                assert!(not_negative(unit(Operation::Add(a.to_bits(), b.to_bits()))));
                for count in [1u64, 7, u64::MAX] {
                    let divisor = unit(Operation::FromInt(count));
                    assert!(not_negative(unit(Operation::Div(a.to_bits(), divisor))));
                }
            }
        }
    }
}
