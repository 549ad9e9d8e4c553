use neural_networks_from_scratch::layer::Dense;
use neural_networks_from_scratch::neuron::Neuron;

fn fx(v: f64) -> i64 {
    (v * 1e9).round() as i64
}

fn unfx(v: i64) -> f64 {
    v as f64 / 1e9
}

fn float_equal(left: f64, right: f64) -> bool {
    (left - right).abs() < 1e-5
}

fn fx_row(values: &[f64]) -> Vec<i64> {
    values.iter().map(|&v| fx(v)).collect()
}

fn layer_4_to_3() -> Dense {
    Dense::new(vec![
        Neuron::new(fx_row(&[0.2, 0.8, -0.5, 1.0]), fx(2.0)),
        Neuron::new(fx_row(&[0.5, -0.91, 0.26, -0.5]), fx(3.0)),
        Neuron::new(fx_row(&[-0.26, -0.27, 0.17, 0.87]), fx(0.5)),
    ])
}

fn layer_3_to_3() -> Dense {
    Dense::new(vec![
        Neuron::new(fx_row(&[0.1, -0.14, 0.5]), fx(-1.0)),
        Neuron::new(fx_row(&[-0.5, 0.12, -0.33]), fx(2.0)),
        Neuron::new(fx_row(&[-0.44, 0.73, -0.13]), fx(-0.5)),
    ])
}

fn batch_of_3() -> Vec<Vec<i64>> {
    vec![
        fx_row(&[1.0, 2.0, 3.0, 2.5]),
        fx_row(&[2.0, 5.0, -1.0, 2.0]),
        fx_row(&[-1.5, 2.7, 3.3, -0.8]),
    ]
}

fn assert_rows_close(outputs: &[Vec<i64>], expected: &[Vec<f64>], tolerance: f64) {
    assert_eq!(outputs.len(), expected.len());
    for (row, want) in outputs.iter().zip(expected) {
        assert_eq!(row.len(), want.len());
        for (&got, &want) in row.iter().zip(want) {
            assert!(
                (unfx(got) - want).abs() <= tolerance,
                "{} != {want}",
                unfx(got)
            );
        }
    }
}

#[test]
fn lib_neuron_layer() {
    let inputs = fx_row(&[1.0, 2.0, 3.0, 2.5]);
    let output = layer_4_to_3().forward_sample(&inputs);
    println!("{output:?}");
    let output: Vec<f64> = output.into_iter().map(unfx).collect();
    assert_eq!(output, [4.8, 1.21, 2.385]);
}

#[test]
fn chapter02_neuron_layer() {
    let inputs = fx_row(&[1.0, 2.0, 3.0, 2.5]);
    let output = layer_4_to_3().forward_sample(&inputs);
    println!("{output:?}");
    let output: Vec<f64> = output.into_iter().map(unfx).collect();
    assert_eq!(output, [4.8, 1.21, 2.385]);
}

#[test]
fn lib_neuron_layer_with_batch_of_data() {
    let outputs = layer_4_to_3().forward_batch(&batch_of_3());
    println!("{outputs:?}");
    assert_rows_close(
        &outputs,
        &[
            vec![4.8, 1.21, 2.385],
            vec![8.9, -1.81, 0.2],
            vec![1.41, 1.051, 0.026],
        ],
        1e-10,
    );
}

#[test]
fn chapter02_neuron_layer_with_batch_of_data() {
    let outputs = layer_4_to_3().forward_batch(&batch_of_3());
    println!("{outputs:?}");
    assert_rows_close(
        &outputs,
        &[
            vec![4.8, 1.21, 2.385],
            vec![8.9, -1.81, 0.2],
            vec![1.41, 1.051, 0.026],
        ],
        1e-10,
    );
}

#[test]
fn layer_with_sample() {
    let inputs = fx_row(&[1.0, 2.0, 3.0, 2.5]);
    let outputs = layer_4_to_3().forward_sample(&inputs);
    let expected = [4.8, 1.21, 2.385];
    assert!(outputs
        .into_iter()
        .zip(expected)
        .all(|(left, right)| float_equal(unfx(left), right)));
}

#[test]
fn layer_with_batch() {
    let outputs = layer_4_to_3().forward_batch(&batch_of_3());
    assert_rows_close(
        &outputs,
        &[
            vec![4.8, 1.21, 2.385],
            vec![8.9, -1.81, 0.2],
            vec![1.41, 1.051, 0.026],
        ],
        1e-10,
    );
}

#[test]
fn multiple_layers() {
    let hidden = layer_4_to_3().forward_batch(&batch_of_3());
    let outputs = layer_3_to_3().forward_batch(&hidden);
    assert_rows_close(
        &outputs,
        &[
            vec![0.5031, -1.04185, -2.03875],
            vec![0.2434, -2.7332, -5.7633],
            vec![-0.99314, 1.41254, -0.35655],
        ],
        1e-10,
    );
}

#[test]
fn second_layer() {
    let hidden = layer_4_to_3().forward_batch(&batch_of_3());
    let outputs = layer_3_to_3().forward_batch(&hidden);
    assert_rows_close(
        &outputs,
        &[
            vec![0.5031, -1.04185, -2.03875],
            vec![0.2434, -2.7332, -5.7633],
            vec![-0.99314, 1.41254, -0.35655],
        ],
        1e-10,
    );
}

fn spiral(samples: usize, classes: usize) -> (Vec<Vec<i64>>, Vec<Vec<i64>>) {
    let mut x = Vec::new();
    let mut y = Vec::new();
    for class_number in 0..classes {
        let t_offset = class_number as f64 * 4.0;
        for sample_number in 0..samples {
            let noise: f64 = rand::random();
            let r = 1.0 / samples as f64 * sample_number as f64;
            let t = t_offset + 4.0 / samples as f64 * sample_number as f64 + noise;
            x.push(vec![fx(r * t.sin()), fx(r * t.cos())]);
            y.push(vec![class_number as i64]);
        }
    }
    (x, y)
}

fn constant_dense(inputs: usize, outputs: usize) -> Dense {
    let mut neurons = Vec::new();
    for _ in 0..outputs {
        neurons.push(Neuron::new(vec![fx(0.01); inputs], 0));
    }
    Dense::new(neurons)
}

#[test]
fn layer_with_dataset() {
    let (x, _) = spiral(100, 3);
    let dense = constant_dense(2, 3);
    let output = dense.forward_batch(&x);
    assert!(output[0].iter().all(|&value| value == 0));
    assert!(output[1..6].iter().flatten().all(|&value| value != 0));
}

#[test]
fn passing_dataset_through_layer() {
    let (x, _) = spiral(100, 3);
    let layer = Dense::random(2, 3);
    let output = layer.forward_batch(&x);
    assert_eq!(output.len(), 300);
    assert_eq!(output[0].len(), 3);
}

#[test]
fn forward_output_shape_matches_configuration() {
    let layer = layer_4_to_3();
    let batch = batch_of_3();
    let outputs = layer.forward_batch(&batch);
    assert_eq!(outputs.len(), batch.len());
    for row in &outputs {
        assert_eq!(row.len(), 3);
    }
}

#[test]
fn dense_forward_is_deterministic() {
    let layer = layer_4_to_3();
    let batch = batch_of_3();
    let first = layer.forward_batch(&batch);
    let second = layer.forward_batch(&batch);
    assert_eq!(first, second);
}

#[test]
fn perturbed_layer_stays_within_magnitude() {
    let layer = layer_4_to_3();
    let moved = layer.perturbed(fx(0.05));
    assert_eq!(moved.neurons.len(), layer.neurons.len());
    for (new, old) in moved.neurons.iter().zip(layer.neurons.iter()) {
        assert_eq!(new.weights.len(), old.weights.len());
        for (&w_new, &w_old) in new.weights.iter().zip(old.weights.iter()) {
            assert!((w_new - w_old).abs() <= fx(0.05));
        }
        assert!((new.bias - old.bias).abs() <= fx(0.05));
    }
}

#[test]
fn random_layer_has_zero_biases_and_symmetric_weights() {
    let layer = Dense::random(4, 3);
    assert_eq!(layer.neurons.len(), 3);
    for neuron in &layer.neurons {
        assert_eq!(neuron.weights.len(), 4);
        assert_eq!(neuron.bias, 0);
        assert!(neuron.weights.iter().all(|&w| fx(-1.0) <= w && w <= fx(1.0)));
    }
}
