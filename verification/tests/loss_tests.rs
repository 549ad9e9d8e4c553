use neural_networks_from_scratch::activation::relu::ReLu;
use neural_networks_from_scratch::activation::softmax::Softmax;
use neural_networks_from_scratch::layer::Dense;
use neural_networks_from_scratch::loss::categorical_crossentropy::CategoricalCrossentropy;
use neural_networks_from_scratch::loss::{accuracy, arg_max, Loss};
use neural_networks_from_scratch::neuron::Neuron;

fn fx(v: f64) -> i64 {
    (v * 1e9).round() as i64
}

fn unfx(v: i64) -> f64 {
    v as f64 / 1e9
}

fn float_equal(left: f64, right: f64) -> bool {
    (left - right).abs() < 1e-5
}

fn fx_row(values: &[f64]) -> Vec<i64> {
    values.iter().map(|&v| fx(v)).collect()
}

fn spiral(samples: usize, classes: usize) -> (Vec<Vec<i64>>, Vec<Vec<i64>>) {
    let mut x = Vec::new();
    let mut y = Vec::new();
    for class_number in 0..classes {
        let t_offset = class_number as f64 * 4.0;
        for sample_number in 0..samples {
            let noise: f64 = rand::random();
            let r = 1.0 / samples as f64 * sample_number as f64;
            let t = t_offset + 4.0 / samples as f64 * sample_number as f64 + noise;
            x.push(vec![fx(r * t.sin()), fx(r * t.cos())]);
            y.push(vec![class_number as i64]);
        }
    }
    (x, y)
}

fn constant_dense(inputs: usize, outputs: usize) -> Dense {
    let mut neurons = Vec::new();
    for _ in 0..outputs {
        neurons.push(Neuron::new(vec![fx(0.01); inputs], 0));
    }
    Dense::new(neurons)
}

#[test]
fn dense_layer_with_relu() {
    let (x, _) = spiral(100, 3);
    let dense = constant_dense(2, 3);
    let output = ReLu.forward_batch(&dense.forward_batch(&x));
    assert!(output[0].iter().all(|&value| value == 0));
    assert!(output.iter().flatten().all(|&value| value >= 0));
}

#[test]
fn dense_layer_with_activation_functions() {
    let (x, _) = spiral(100, 3);
    let dense1 = constant_dense(2, 3);
    let activation1 = ReLu;
    let dense2 = constant_dense(3, 3);
    let activation2 = Softmax;
    let output = dense1.forward_batch(&x);
    let output = activation1.forward_batch(&output);
    let output = dense2.forward_batch(&output);
    let output = activation2.forward_batch(&output);
    assert!(output
        .iter()
        .flatten()
        .all(|&value| float_equal(unfx(value), 1.0 / 3.0)));
}

#[test]
fn model_with_categorical_loss() {
    const SAMPLES: usize = 100;
    const CLASSES: usize = 3;
    let (x, y) = spiral(SAMPLES, CLASSES);
    let dense1 = constant_dense(2, 3);
    let activation1 = ReLu;
    let dense2 = constant_dense(3, 3);
    let activation2 = Softmax;
    let loss_function = CategoricalCrossentropy;
    let output = dense1.forward_batch(&x);
    let output = activation1.forward_batch(&output);
    let output = dense2.forward_batch(&output);
    let output = activation2.forward_batch(&output);
    assert!(float_equal(
        unfx(loss_function.calculate(&output, &y)),
        1.0986104
    ));
    assert!(float_equal(unfx(accuracy(&output, &y)), 1.0 / 3.0));
}

#[test]
fn loss_is_finite_at_clipping_boundary() {
    let loss_function = CategoricalCrossentropy;
    // prediction exactly 1 at the target class
    let sure = vec![fx_row(&[1.0, 0.0, 0.0])];
    let labels = vec![vec![0i64]];
    let loss_sure = loss_function.calculate(&sure, &labels);
    assert!(0 <= loss_sure && loss_sure < fx(0.001));
    // prediction exactly 0 at the target class: -ln(1e-7), still finite
    let wrong = vec![fx_row(&[0.0, 1.0, 0.0])];
    let loss_wrong = loss_function.calculate(&wrong, &labels);
    assert!((unfx(loss_wrong) - 16.118095).abs() < 1e-3);
}

#[test]
fn accuracy_breaks_ties_toward_lower_index() {
    let predictions = vec![fx_row(&[0.4, 0.4, 0.2])];
    assert_eq!(unfx(accuracy(&predictions, &vec![vec![0i64]])), 1.0);
    assert_eq!(unfx(accuracy(&predictions, &vec![vec![1i64]])), 0.0);
}

#[test]
fn arg_max_takes_first_maximum() {
    assert_eq!(arg_max(&fx_row(&[0.1, 0.7, 0.7, 0.2])), 1);
    assert_eq!(arg_max(&fx_row(&[5.0, 1.0, 5.0])), 0);
    assert_eq!(arg_max(&fx_row(&[-3.0, -1.0, -2.0])), 1);
    assert_eq!(arg_max(&fx_row(&[2.5])), 0);
}

#[test]
fn loss_with_class_index_labels() {
    let loss_function = CategoricalCrossentropy;
    let predictions = vec![fx_row(&[0.5, 0.3, 0.2])];
    let labels = vec![vec![0i64]];
    let losses = loss_function.forward(&predictions, &labels);
    assert_eq!(losses.len(), 1);
    assert!((unfx(losses[0]) - 0.6931472).abs() < 1e-5);
}

#[test]
fn loss_with_one_hot_labels() {
    let loss_function = CategoricalCrossentropy;
    let predictions = vec![fx_row(&[0.7, 0.1, 0.2])];
    let labels = vec![fx_row(&[1.0, 0.0, 0.0])];
    let losses = loss_function.forward(&predictions, &labels);
    assert_eq!(losses.len(), 1);
    assert!((unfx(losses[0]) - 0.35667494).abs() < 1e-5);
}

#[test]
fn mean_loss_over_batch() {
    let loss_function = CategoricalCrossentropy;
    let predictions = vec![fx_row(&[0.5, 0.5]), fx_row(&[0.25, 0.75])];
    let labels = vec![vec![0i64], vec![1i64]];
    // (-ln 0.5 + -ln 0.75) / 2
    let expected = (0.6931472 + 0.2876821) / 2.0;
    assert!((unfx(loss_function.calculate(&predictions, &labels)) - expected).abs() < 1e-5);
}

#[test]
fn accuracy_counts_matching_rows() {
    let predictions = vec![
        fx_row(&[0.9, 0.1]),
        fx_row(&[0.2, 0.8]),
        fx_row(&[0.6, 0.4]),
    ];
    let labels = vec![vec![0i64], vec![0i64], vec![0i64]];
    let acc = accuracy(&predictions, &labels);
    assert!(float_equal(unfx(acc), 2.0 / 3.0));
}

#[test]
fn accuracy_with_one_hot_labels() {
    let predictions = vec![fx_row(&[0.9, 0.1]), fx_row(&[0.2, 0.8])];
    let labels = vec![fx_row(&[0.0, 1.0]), fx_row(&[0.0, 1.0])];
    let acc = accuracy(&predictions, &labels);
    assert!(float_equal(unfx(acc), 0.5));
}
