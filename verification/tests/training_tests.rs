use neural_networks_from_scratch::fixed::VMAX;
use neural_networks_from_scratch::layer::Dense;
use neural_networks_from_scratch::neuron::Neuron;
use neural_networks_from_scratch::search::{search_step, train, Network};

fn fx(v: f64) -> i64 {
    (v * 1e9).round() as i64
}

fn unfx(v: i64) -> f64 {
    v as f64 / 1e9
}

fn spiral(samples: usize, classes: usize) -> (Vec<Vec<i64>>, Vec<Vec<i64>>) {
    let mut x = Vec::new();
    let mut y = Vec::new();
    for class_number in 0..classes {
        let t_offset = class_number as f64 * 4.0;
        for sample_number in 0..samples {
            let noise: f64 = rand::random();
            let r = 1.0 / samples as f64 * sample_number as f64;
            let t = t_offset + 4.0 / samples as f64 * sample_number as f64 + noise;
            x.push(vec![fx(r * t.sin()), fx(r * t.cos())]);
            y.push(vec![class_number as i64]);
        }
    }
    (x, y)
}

#[test]
fn best_loss_never_worsens_across_accepted_iterations() {
    let (x, y) = spiral(20, 3);
    let net = Network {
        dense1: Dense::random(2, 3),
        dense2: Dense::random(3, 3),
    };
    let (best, records) = train(net, &x, &y, 200, fx(0.05));
    assert!(!records.is_empty());
    for pair in records.windows(2) {
        assert!(pair[1].loss < pair[0].loss);
        assert!(pair[0].iteration < pair[1].iteration);
    }
    for record in &records {
        assert!(record.iteration < 200);
        assert!(0.0 <= unfx(record.loss));
        assert!(0.0 <= unfx(record.accuracy) && unfx(record.accuracy) <= 1.0);
    }
    assert_eq!(best.dense1.neurons.len(), 3);
    assert_eq!(best.dense2.neurons.len(), 3);
}

#[test]
fn training_for_zero_iterations_records_nothing() {
    let (x, y) = spiral(5, 2);
    let net = Network {
        dense1: Dense::random(2, 2),
        dense2: Dense::random(2, 2),
    };
    let (_, records) = train(net, &x, &y, 0, fx(0.05));
    assert!(records.is_empty());
}

#[test]
fn forward_pass_overflow_is_reported() {
    let net = Network {
        dense1: Dense::new(vec![Neuron::new(vec![VMAX], 0)]),
        dense2: Dense::new(vec![Neuron::new(vec![fx(1.0)], 0)]),
    };
    let batch = vec![vec![VMAX]];
    assert!(net.forward(&batch).is_none());
}

#[test]
fn forward_pass_shapes_and_probabilities() {
    let net = Network {
        dense1: Dense::new(vec![
            Neuron::new(vec![fx(0.2), fx(0.8)], fx(0.5)),
            Neuron::new(vec![fx(-0.3), fx(0.1)], 0),
            Neuron::new(vec![fx(1.0), fx(-1.0)], fx(-0.25)),
        ]),
        dense2: Dense::new(vec![
            Neuron::new(vec![fx(0.1), fx(0.2), fx(0.3)], 0),
            Neuron::new(vec![fx(-0.1), fx(0.4), fx(0.0)], fx(1.0)),
        ]),
    };
    let batch = vec![
        vec![fx(1.0), fx(2.0)],
        vec![fx(-1.5), fx(0.25)],
        vec![fx(0.0), fx(0.0)],
    ];
    let out = net.forward(&batch).unwrap();
    assert_eq!(out.len(), 3);
    for row in &out {
        assert_eq!(row.len(), 2);
        let sum: f64 = row.iter().map(|&v| unfx(v)).sum();
        assert!((sum - 1.0).abs() <= 1e-8);
        assert!(row.iter().all(|&v| 0 <= v && v <= fx(1.0)));
    }
}

#[test]
fn search_step_accepts_first_measured_loss() {
    let (x, y) = spiral(10, 2);
    let net = Network {
        dense1: Dense::random(2, 2),
        dense2: Dense::random(2, 2),
    };
    let accepted = search_step(&net, None, &x, &y, fx(0.05));
    let (trial, loss, acc) = accepted.expect("a first loss always improves on none");
    assert_eq!(trial.dense1.neurons.len(), 2);
    assert!(loss >= 0);
    assert!(0.0 <= unfx(acc) && unfx(acc) <= 1.0);
}

#[test]
fn search_step_rejects_when_best_is_unbeatable() {
    let (x, y) = spiral(10, 2);
    let net = Network {
        dense1: Dense::random(2, 2),
        dense2: Dense::random(2, 2),
    };
    // No loss is strictly below zero, so nothing is ever accepted.
    assert!(search_step(&net, Some(0), &x, &y, fx(0.05)).is_none());
}
