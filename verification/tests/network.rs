use nn::Error;
use nn::NeuralNetwork;
use nn::matrix::Matrix;

fn f(b: u64) -> f64 {
    f64::from_bits(b)
}

fn mat(rows: Vec<Vec<f64>>) -> Matrix {
    let data: Vec<Vec<u64>> = rows
        .into_iter()
        .map(|r| r.into_iter().map(|v| v.to_bits()).collect())
        .collect();
    Matrix::from(data).unwrap()
}

fn or_table() -> (Matrix, Matrix) {
    let x = mat(vec![
        vec![0.0, 0.0],
        vec![0.0, 1.0],
        vec![1.0, 0.0],
        vec![1.0, 1.0],
    ]);
    let y = mat(vec![vec![0.0], vec![1.0], vec![1.0], vec![1.0]]);
    (x, y)
}

#[test]
fn new_builds_zeroed_stacks() {
    let n = NeuralNetwork::new(vec![2, 4, 3, 1]).unwrap();
    assert_eq!(n.count, 4);
    assert_eq!(n.weights.len(), 3);
    assert_eq!(n.biases.len(), 3);
    assert_eq!(n.activations.len(), 4);
    let wshapes = [(2, 4), (4, 3), (3, 1)];
    for (l, (r, c)) in wshapes.iter().enumerate() {
        assert_eq!(n.weights[l].rows, *r);
        assert_eq!(n.weights[l].cols, *c);
        assert_eq!(n.biases[l].rows, 1);
        assert_eq!(n.biases[l].cols, *c);
        for i in 0..n.weights[l].rows {
            for j in 0..n.weights[l].cols {
                assert_eq!(f(n.weights[l].get_value(i, j).unwrap()), 0.0);
            }
        }
    }
    for (i, width) in [2usize, 4, 3, 1].iter().enumerate() {
        assert_eq!(n.activations[i].rows, 1);
        assert_eq!(n.activations[i].cols, *width);
    }
}

#[test]
fn short_or_zero_architecture_is_rejected() {
    assert!(matches!(NeuralNetwork::new(vec![]), Err(Error::ConfigError)));
    assert!(matches!(NeuralNetwork::new(vec![3]), Err(Error::ConfigError)));
    assert!(matches!(
        NeuralNetwork::new(vec![2, 0, 1]),
        Err(Error::ConfigError)
    ));
}

#[test]
fn forward_of_zero_network_gives_half() {
    let mut n = NeuralNetwork::new(vec![1, 1]).unwrap();
    n.activations[0] = mat(vec![vec![0.7]]);
    n.forward();
    let out = n.output();
    assert_eq!(out.rows, 1);
    assert_eq!(out.cols, 1);
    assert_eq!(f(out.get_value(0, 0).unwrap()), 0.5);
}

#[test]
fn cost_is_zero_exactly_on_reproduced_targets() {
    let n = NeuralNetwork::new(vec![1, 1]).unwrap();
    let x = mat(vec![vec![1.0], vec![2.0]]);
    let hit = mat(vec![vec![0.5], vec![0.5]]);
    let c = n.cost(&x, &hit).unwrap();
    assert_eq!(f(c), 0.0);
    let miss = mat(vec![vec![0.5], vec![0.6]]);
    let c2 = n.cost(&x, &miss).unwrap();
    assert!(f(c2) > 0.0);
}

#[test]
fn cost_value_is_exact_mean() {
    let n = NeuralNetwork::new(vec![2, 1]).unwrap();
    let (x, _) = or_table();
    let zeros = mat(vec![vec![0.0], vec![0.0], vec![0.0], vec![0.0]]);
    let c = n.cost(&x, &zeros).unwrap();
    assert_eq!(f(c), 0.25);
}

#[test]
fn cost_rejects_mismatched_sets() {
    let n = NeuralNetwork::new(vec![2, 1]).unwrap();
    let (x, y) = or_table();
    let short_y = mat(vec![vec![0.0], vec![1.0]]);
    assert!(matches!(n.cost(&x, &short_y), Err(Error::ShapeError)));
    let wide_x = mat(vec![vec![0.0, 0.0, 0.0]]);
    let one_y = mat(vec![vec![0.0]]);
    assert!(matches!(n.cost(&wide_x, &one_y), Err(Error::ShapeError)));
    let wide_y = mat(vec![vec![0.0, 1.0]]);
    let one_x = mat(vec![vec![0.0, 0.0]]);
    assert!(matches!(n.cost(&one_x, &wide_y), Err(Error::ShapeError)));
    assert!(matches!(n.diff(&x, &short_y, 0.1f64.to_bits()), Err(Error::ShapeError)));
}

#[test]
fn gradient_shrinks_toward_minimum() {
    let n = NeuralNetwork::new(vec![1, 1]).unwrap();
    let x = mat(vec![vec![1.0]]);
    let y = mat(vec![vec![0.5]]);
    let mut magnitudes = Vec::new();
    for eps in [0.1f64, 0.01, 0.001] {
        let g = n.diff(&x, &y, eps.to_bits()).unwrap();
        let gw = f(g.weights[0].get_value(0, 0).unwrap()).abs();
        let gb = f(g.biases[0].get_value(0, 0).unwrap()).abs();
        magnitudes.push(gw.max(gb));
    }
    assert!(magnitudes[0] > magnitudes[1]);
    assert!(magnitudes[1] > magnitudes[2]);
    assert!(magnitudes[2] < 1e-3);
}

#[test]
fn learn_with_rate_zero_keeps_parameters() {
    let mut n = NeuralNetwork::new(vec![2, 1]).unwrap();
    n.weights[0] = mat(vec![vec![0.3], vec![0.7]]);
    n.biases[0] = mat(vec![vec![-0.2]]);
    let (x, y) = or_table();
    let g = n.diff(&x, &y, 0.1f64.to_bits()).unwrap();
    let w_before: Vec<u64> = vec![
        n.weights[0].get_value(0, 0).unwrap(),
        n.weights[0].get_value(1, 0).unwrap(),
        n.biases[0].get_value(0, 0).unwrap(),
    ];
    n.learn(&g, 0.0f64.to_bits()).unwrap();
    let w_after: Vec<u64> = vec![
        n.weights[0].get_value(0, 0).unwrap(),
        n.weights[0].get_value(1, 0).unwrap(),
        n.biases[0].get_value(0, 0).unwrap(),
    ];
    assert_eq!(w_before, w_after);
}

#[test]
fn learn_rejects_mismatched_architecture() {
    let mut n = NeuralNetwork::new(vec![2, 1]).unwrap();
    let g = NeuralNetwork::new(vec![2, 2]).unwrap();
    assert!(matches!(n.learn(&g, 0.1f64.to_bits()), Err(Error::ShapeError)));
    let g2 = NeuralNetwork::new(vec![2, 3, 1]).unwrap();
    assert!(matches!(n.learn(&g2, 0.1f64.to_bits()), Err(Error::ShapeError)));
}

#[test]
fn or_training_end_to_end() {
    let mut n = NeuralNetwork::new(vec![2, 1]).unwrap();
    n.weights[0] = mat(vec![vec![0.5], vec![0.5]]);
    n.biases[0] = mat(vec![vec![0.5]]);
    let (x, y) = or_table();
    let eps = 0.1f64.to_bits();
    let rate = 0.1f64.to_bits();
    let c0 = f(n.cost(&x, &y).unwrap());
    for _ in 0..2000 {
        let g = n.diff(&x, &y, eps).unwrap();
        n.learn(&g, rate).unwrap();
    }
    let c1 = f(n.cost(&x, &y).unwrap());
    assert!(c1 < c0);
    let cases = [
        (0.0f64, 0.0f64, false),
        (0.0, 1.0, true),
        (1.0, 0.0, true),
        (1.0, 1.0, true),
    ];
    for (a, b, high) in cases {
        n.activations[0] = mat(vec![vec![a, b]]);
        n.forward();
        let v = f(n.output().get_value(0, 0).unwrap());
        if high {
            assert!(v > 0.5, "{a} or {b} gave {v}");
        } else {
            assert!(v < 0.5, "{a} or {b} gave {v}");
        }
    }
}

#[test]
fn duplicate_copies_every_entry() {
    let mut n = NeuralNetwork::new(vec![2, 1]).unwrap();
    n.weights[0] = mat(vec![vec![0.25], vec![-1.5]]);
    let d = n.duplicate();
    assert_eq!(d.count, n.count);
    assert_eq!(
        d.weights[0].get_value(1, 0).unwrap(),
        n.weights[0].get_value(1, 0).unwrap()
    );
}

#[test]
fn rand_keeps_shapes_and_activations() {
    let mut n = NeuralNetwork::new(vec![2, 3, 1]).unwrap();
    n.rand(0.0f64.to_bits(), 1.0f64.to_bits());
    assert_eq!(n.weights[0].rows, 2);
    assert_eq!(n.weights[0].cols, 3);
    assert_eq!(n.weights[1].rows, 3);
    assert_eq!(n.weights[1].cols, 1);
    for l in 0..2 {
        for i in 0..n.weights[l].rows {
            for j in 0..n.weights[l].cols {
                let v = f(n.weights[l].get_value(i, j).unwrap());
                assert!(v >= 0.0 && v <= 1.0);
            }
        }
    }
    for i in 0..3 {
        for j in 0..n.activations[i].cols {
            assert_eq!(f(n.activations[i].get_value(0, j).unwrap()), 0.0);
        }
    }
}

#[test]
fn diff_matches_a_manual_probe() {
    let mut n = NeuralNetwork::new(vec![2, 1]).unwrap();
    n.weights[0] = mat(vec![vec![0.4], vec![-0.3]]);
    n.biases[0] = mat(vec![vec![0.1]]);
    let (x, y) = or_table();
    let eps = 0.1f64;
    let c0 = f(n.cost(&x, &y).unwrap());
    let mut probed = n.duplicate();
    probed
        .weights[0]
        .increase_value(1, 0, eps.to_bits())
        .unwrap();
    let c1 = f(probed.cost(&x, &y).unwrap());
    let expected = (c1 - c0) / eps;
    let g = n.diff(&x, &y, eps.to_bits()).unwrap();
    let got = f(g.weights[0].get_value(1, 0).unwrap());
    assert_eq!(got.to_bits(), expected.to_bits());
}

#[test]
fn cost_leaves_activations_untouched() {
    let mut n = NeuralNetwork::new(vec![2, 1]).unwrap();
    n.weights[0] = mat(vec![vec![0.5], vec![0.5]]);
    n.biases[0] = mat(vec![vec![0.5]]);
    n.activations[0] = mat(vec![vec![1.0, 0.0]]);
    n.forward();
    let before = n.output().get_value(0, 0).unwrap();
    let (x, y) = or_table();
    n.cost(&x, &y).unwrap();
    let after = n.output().get_value(0, 0).unwrap();
    assert_eq!(before, after);
    assert_eq!(
        n.activations[0].get_value(0, 0).unwrap(),
        1.0f64.to_bits()
    );
}
