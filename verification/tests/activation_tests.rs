use neural_networks_from_scratch::activation::relu::ReLu;
use neural_networks_from_scratch::activation::softmax::Softmax;
use neural_networks_from_scratch::layer::Dense;
use neural_networks_from_scratch::neuron::Neuron;

fn fx(v: f64) -> i64 {
    (v * 1e9).round() as i64
}

fn unfx(v: i64) -> f64 {
    v as f64 / 1e9
}

fn float_equal(left: f64, right: f64) -> bool {
    (left - right).abs() < 1e-5
}

fn fx_row(values: &[f64]) -> Vec<i64> {
    values.iter().map(|&v| fx(v)).collect()
}

#[test]
fn relu_test() {
    let inputs = fx_row(&[0.0, 2.0, -1.0, 3.3, -2.7, 1.1, 2.2, -100.0]);
    let expected = fx_row(&[0.0, 2.0, 0.0, 3.3, 0.0, 1.1, 2.2, 0.0]);
    assert!(ReLu
        .forward_sample(&inputs)
        .into_iter()
        .zip(expected)
        .all(|(left, right)| left == right));
}

#[test]
fn softmax_test() {
    let layer_outputs = fx_row(&[4.8, 1.21, 2.385]);
    let norm_values = Softmax.forward_sample(&layer_outputs);
    assert!(norm_values
        .iter()
        .zip([0.89528266, 0.02470831, 0.08000903])
        .all(|(&left, right)| float_equal(unfx(left), right)));
    assert!(float_equal(
        norm_values.iter().map(|&v| unfx(v)).sum::<f64>(),
        1.0
    ));
}

#[test]
fn relu_is_idempotent_and_nonnegative() {
    let inputs = fx_row(&[-5.5, 0.0, 3.25, -0.001, 7.0]);
    let once = ReLu.forward_sample(&inputs);
    let twice = ReLu.forward_sample(&once);
    assert_eq!(once, twice);
    assert!(once.iter().all(|&v| v >= 0));
}

#[test]
fn softmax_rows_sum_to_one() {
    let rows = vec![
        fx_row(&[4.8, 1.21, 2.385]),
        fx_row(&[1000.5, -3.25, 7.0]),
        fx_row(&[-20.0, -20.0, -20.0, -20.0]),
        fx_row(&[0.0]),
        fx_row(&[123.456, 123.456, -500.0, 9.0, 0.125]),
    ];
    for row in &rows {
        let out = Softmax.forward_sample(row);
        let sum: f64 = out.iter().map(|&v| unfx(v)).sum();
        assert!((sum - 1.0).abs() <= 1e-8, "row sum {sum}");
        assert!(out.iter().all(|&v| 0 <= v && v <= fx(1.0)));
    }
}

#[test]
fn softmax_is_deterministic() {
    let row = fx_row(&[3.5, -2.25, 0.125, 9.0]);
    let first = Softmax.forward_sample(&row);
    let second = Softmax.forward_sample(&row);
    assert_eq!(first, second);
}

#[test]
fn relu_parallel_matches_sequential() {
    let batch = vec![
        fx_row(&[-1.0, 2.0, -3.0]),
        fx_row(&[0.5, -0.25]),
        fx_row(&[-7.75]),
    ];
    let parallel = ReLu.forward(&batch);
    let sequential = ReLu.forward_batch(&batch);
    assert_eq!(parallel, sequential);
    assert_eq!(parallel[0], fx_row(&[0.0, 2.0, 0.0]));
}

#[test]
fn softmax_parallel_matches_sequential() {
    let batch = vec![fx_row(&[4.8, 1.21, 2.385]), fx_row(&[-2.0, -2.0])];
    let parallel = Softmax.forward(&batch);
    let sequential = Softmax.forward_batch(&batch);
    assert_eq!(parallel, sequential);
    assert_eq!(parallel[1], fx_row(&[0.5, 0.5]));
}

fn spiral(samples: usize, classes: usize) -> Vec<Vec<i64>> {
    let mut x = Vec::new();
    for class_number in 0..classes {
        let t_offset = class_number as f64 * 4.0;
        for sample_number in 0..samples {
            let noise: f64 = rand::random();
            let r = 1.0 / samples as f64 * sample_number as f64;
            let t = t_offset + 4.0 / samples as f64 * sample_number as f64 + noise;
            x.push(vec![fx(r * t.sin()), fx(r * t.cos())]);
        }
    }
    x
}

#[test]
fn relu() {
    let data = spiral(1_000, 1_000);
    let dense = Dense::random(2, 3);
    let mut output = dense.forward_batch(&data);
    let activation = ReLu;
    output = activation.forward(&output);
    assert_eq!(output.len(), 1_000_000);
    assert_eq!(output[0].len(), 3);
}

#[test]
fn softmax() {
    let data = spiral(1_000, 1_000);
    let dense1 = Dense::random(2, 3);
    let dense2 = Dense::random(3, 3);
    let output = dense1.forward_batch(&data);
    let output = ReLu.forward(&output);
    let output = dense2.forward_batch(&output);
    let output = Softmax.forward(&output);
    assert_eq!(output.len(), 1_000_000);
    assert_eq!(output[0].len(), 3);
}

#[test]
fn softmax_overflow_guard_handles_huge_values() {
    let row = vec![fx(1000000.0), fx(-1000000.0), fx(999999.0)];
    let out = Softmax.forward_sample(&row);
    let sum: f64 = out.iter().map(|&v| unfx(v)).sum();
    assert!((sum - 1.0).abs() <= 1e-8);
    assert!(unfx(out[0]) > 0.7);
    assert_eq!(out[1], 0);
}

#[test]
fn relu_large_batch_keeps_shape() {
    let dense = Dense::new(vec![
        Neuron::new(fx_row(&[0.5, -0.5]), fx(0.25)),
        Neuron::new(fx_row(&[-1.0, 2.0]), 0),
    ]);
    let batch = vec![fx_row(&[1.0, -1.0]); 64];
    let out = ReLu.forward_batch(&dense.forward_batch(&batch));
    assert_eq!(out.len(), 64);
    assert!(out.iter().all(|row| row.len() == 2));
}
