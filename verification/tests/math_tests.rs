use neural_networks_from_scratch::math::creation::{linspace, randn_matrix};
use neural_networks_from_scratch::math::operations::t;
use neural_networks_from_scratch::math::operations::{add, dot};

fn fx(v: f64) -> i64 {
    (v * 1e9).round() as i64
}

fn fx_row(values: &[f64]) -> Vec<i64> {
    values.iter().map(|&v| fx(v)).collect()
}

#[test]
fn linspace_spaces_values_evenly() {
    assert_eq!(
        linspace(fx(0.0), fx(1.0), 4),
        fx_row(&[0.0, 0.25, 0.5, 0.75])
    );
    assert_eq!(linspace(fx(2.0), fx(0.0), 2), fx_row(&[2.0, 1.0]));
    assert_eq!(linspace(fx(5.0), fx(5.0), 3), fx_row(&[5.0, 5.0, 5.0]));
}

#[test]
fn randn_matrix_shape_and_range() {
    let m = randn_matrix(4, 7);
    assert_eq!(m.len(), 4);
    for row in &m {
        assert_eq!(row.len(), 7);
        assert!(row.iter().all(|&v| fx(-1.0) <= v && v <= fx(1.0)));
    }
}

#[test]
fn dot_of_vectors() {
    let left = fx_row(&[1.0, 2.0, 3.0]);
    let right = fx_row(&[0.2, 0.8, -0.5]);
    assert_eq!(dot::vectors(&left, &right), fx(0.3));
}

#[test]
fn dot_of_matrix_and_vector() {
    let matrix = vec![fx_row(&[1.0, 2.0]), fx_row(&[3.0, 4.0])];
    let vector = fx_row(&[0.5, -0.5]);
    assert_eq!(dot::matrix_vector(&matrix, &vector), fx_row(&[-0.5, -0.5]));
}

#[test]
fn dot_of_matrices() {
    let left = vec![fx_row(&[1.0, 2.0]), fx_row(&[3.0, 4.0])];
    let right = vec![fx_row(&[5.0, 6.0]), fx_row(&[7.0, 8.0])];
    assert_eq!(
        dot::matrix(&left, &right),
        vec![fx_row(&[19.0, 22.0]), fx_row(&[43.0, 50.0])]
    );
}

#[test]
fn add_vectors_elementwise() {
    let left = fx_row(&[1.0, -2.0, 3.5]);
    let right = fx_row(&[0.5, 2.0, -3.0]);
    assert_eq!(add::vectors(&left, &right), fx_row(&[1.5, 0.0, 0.5]));
}

#[test]
fn add_vector_to_matrix_rows_and_columns() {
    let matrix = vec![fx_row(&[1.0, 2.0]), fx_row(&[3.0, 4.0])];
    let per_row = add::matrix_vector(&matrix, &fx_row(&[10.0, 20.0]), true);
    assert_eq!(
        per_row,
        vec![fx_row(&[11.0, 12.0]), fx_row(&[23.0, 24.0])]
    );
    let per_column = add::matrix_vector(&matrix, &fx_row(&[10.0, 20.0]), false);
    assert_eq!(
        per_column,
        vec![fx_row(&[11.0, 22.0]), fx_row(&[13.0, 24.0])]
    );
}

#[test]
fn transpose_swaps_rows_and_columns() {
    let matrix = vec![fx_row(&[1.0, 2.0, 3.0]), fx_row(&[4.0, 5.0, 6.0])];
    assert_eq!(
        t(&matrix),
        vec![
            fx_row(&[1.0, 4.0]),
            fx_row(&[2.0, 5.0]),
            fx_row(&[3.0, 6.0]),
        ]
    );
}

#[test]
fn adding_layers_via_matrix_operations() {
    let inputs = vec![
        fx_row(&[1.0, 2.0, 3.0, 2.5]),
        fx_row(&[2.0, 5.0, -1.0, 2.0]),
        fx_row(&[-1.5, 2.7, 3.3, -0.8]),
    ];
    let weights = vec![
        fx_row(&[0.2, 0.8, -0.5, 1.0]),
        fx_row(&[0.5, -0.91, 0.26, -0.5]),
        fx_row(&[-0.26, -0.27, 0.17, 0.87]),
    ];
    let bias = fx_row(&[2.0, 3.0, 0.5]);
    let weights2 = vec![
        fx_row(&[0.1, -0.14, 0.5]),
        fx_row(&[-0.5, 0.12, -0.33]),
        fx_row(&[-0.44, 0.73, -0.13]),
    ];
    let bias2 = fx_row(&[-1.0, 2.0, -0.5]);

    let layer1_outputs = add::matrix_vector(&dot::matrix(&inputs, &t(&weights)), &bias, false);
    let layer2_outputs =
        add::matrix_vector(&dot::matrix(&layer1_outputs, &t(&weights2)), &bias2, false);

    let expected = vec![
        fx_row(&[0.5031, -1.04185, -2.03875]),
        fx_row(&[0.2434, -2.7332, -5.7633]),
        fx_row(&[-0.99314, 1.41254, -0.35655]),
    ];
    assert_eq!(layer2_outputs, expected);
}
