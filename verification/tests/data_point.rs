use neural_net::data_point::DataPoint;
use neural_net::error::NetworkError;

fn bits(values: &[f32]) -> Vec<u32> {
    values.iter().map(|value| value.to_bits()).collect()
}

fn floats(values: &[u32]) -> Vec<f32> {
    values.iter().map(|value| f32::from_bits(*value)).collect()
}

#[test]
fn one_hot_of_second_class_of_two() {
    let point = DataPoint::new(bits(&[0.1, 0.2]), 1, 2).unwrap();
    assert_eq!(floats(&point.expected_outputs), vec![0.0, 1.0]);
    assert_eq!(floats(&point.inputs), vec![0.1, 0.2]);
    assert_eq!(point.label, 1);
}

#[test]
fn one_hot_marks_the_label_alone() {
    for num_labels in 1..8usize {
        for label in 0..num_labels {
            let point = DataPoint::new(Vec::new(), label, num_labels).unwrap();
            let target = floats(&point.expected_outputs);
            assert_eq!(target.len(), num_labels);
            for (k, value) in target.iter().enumerate() {
                assert_eq!(*value, if k == label { 1.0 } else { 0.0 });
            }
            assert_eq!(target.iter().filter(|value| **value == 1.0).count(), 1);
        }
    }
}

#[test]
fn label_that_names_no_class_is_refused() {
    assert!(matches!(DataPoint::new(bits(&[0.1, 0.2]), 2, 2), Err(NetworkError::LabelOutOfRange)));
    assert!(matches!(DataPoint::new(bits(&[0.1, 0.2]), 7, 2), Err(NetworkError::LabelOutOfRange)));
    assert!(matches!(DataPoint::new(Vec::new(), 0, 0), Err(NetworkError::LabelOutOfRange)));
}

#[test]
fn last_label_is_accepted() {
    let point = DataPoint::new(bits(&[1.5]), 4, 5).unwrap();
    assert_eq!(floats(&point.expected_outputs), vec![0.0, 0.0, 0.0, 0.0, 1.0]);
}
