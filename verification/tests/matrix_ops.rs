use nn::Error;
use nn::matrix::Matrix;

fn f(b: u64) -> f64 {
    f64::from_bits(b)
}

fn mat(rows: Vec<Vec<f64>>) -> Matrix {
    let data: Vec<Vec<u64>> = rows
        .into_iter()
        .map(|r| r.into_iter().map(|v| v.to_bits()).collect())
        .collect();
    Matrix::from(data).unwrap()
}

#[test]
fn zeros_shape_and_entries() {
    let z = Matrix::zeros(2, 3);
    assert_eq!(z.rows, 2);
    assert_eq!(z.cols, 3);
    for i in 0..2 {
        for j in 0..3 {
            assert_eq!(f(z.get_value(i, j).unwrap()), 0.0);
        }
    }
    assert_eq!(z.get_value(2, 0), Err(Error::IndexError));
    assert_eq!(z.get_value(0, 3), Err(Error::IndexError));
}

#[test]
fn from_rejects_bad_rows() {
    assert!(matches!(Matrix::from(vec![]), Err(Error::ShapeError)));
    let ragged = vec![vec![1.0f64.to_bits()], vec![]];
    assert!(matches!(Matrix::from(ragged), Err(Error::ShapeError)));
    let ok = Matrix::from(vec![vec![1.0f64.to_bits(), 2.0f64.to_bits()]]).unwrap();
    assert_eq!(ok.rows, 1);
    assert_eq!(ok.cols, 2);
}

#[test]
fn set_increase_decrease() {
    let mut z = Matrix::zeros(2, 2);
    z.set_value(0, 1, 2.5f64.to_bits()).unwrap();
    assert_eq!(f(z.get_value(0, 1).unwrap()), 2.5);
    z.increase_value(0, 1, 1.25f64.to_bits()).unwrap();
    assert_eq!(f(z.get_value(0, 1).unwrap()), 3.75);
    z.decrease_value(0, 1, 0.5f64.to_bits()).unwrap();
    assert_eq!(f(z.get_value(0, 1).unwrap()), 3.25);
    assert_eq!(z.set_value(2, 0, 0), Err(Error::IndexError));
    assert_eq!(z.increase_value(0, 2, 0), Err(Error::IndexError));
    assert_eq!(z.decrease_value(5, 5, 0), Err(Error::IndexError));
}

#[test]
fn row_extraction() {
    let m = mat(vec![vec![1.0, 2.0, 3.0], vec![4.0, 5.0, 6.0]]);
    let r = m.row(1).unwrap();
    assert_eq!(r.rows, 1);
    assert_eq!(r.cols, 3);
    assert_eq!(f(r.get_value(0, 0).unwrap()), 4.0);
    assert_eq!(f(r.get_value(0, 2).unwrap()), 6.0);
    assert!(matches!(m.row(2), Err(Error::IndexError)));
}

#[test]
fn add_matches_ieee_sum() {
    let a = mat(vec![vec![0.1, -2.0], vec![1e300, 3.5]]);
    let b = mat(vec![vec![0.2, 0.25], vec![1e300, -1.25]]);
    let s = a.add(&b).unwrap();
    let ea = [[0.1f64, -2.0], [1e300, 3.5]];
    let eb = [[0.2f64, 0.25], [1e300, -1.25]];
    for i in 0..2 {
        for j in 0..2 {
            let got = f(s.get_value(i, j).unwrap());
            let want = ea[i][j] + eb[i][j];
            assert_eq!(got.to_bits(), want.to_bits());
        }
    }
}

#[test]
fn sub_matches_ieee_difference() {
    let a = mat(vec![vec![0.3, 7.0]]);
    let b = mat(vec![vec![0.1, 9.5]]);
    let d = a.sub(&b).unwrap();
    assert_eq!(f(d.get_value(0, 0).unwrap()).to_bits(), (0.3f64 - 0.1).to_bits());
    assert_eq!(f(d.get_value(0, 1).unwrap()).to_bits(), (7.0f64 - 9.5).to_bits());
}

#[test]
fn mul_matches_ieee_accumulation() {
    let a = mat(vec![vec![0.1, 0.2, 0.3], vec![-1.5, 2.5, 0.125]]);
    let b = mat(vec![vec![1.1, -0.7], vec![0.9, 0.3], vec![2.2, 0.6]]);
    let p = a.mul(&b).unwrap();
    assert_eq!(p.rows, 2);
    assert_eq!(p.cols, 2);
    let ea = [[0.1f64, 0.2, 0.3], [-1.5, 2.5, 0.125]];
    let eb = [[1.1f64, -0.7], [0.9, 0.3], [2.2, 0.6]];
    for i in 0..2 {
        for j in 0..2 {
            let mut sum = 0.0f64;
            for k in 0..3 {
                sum += ea[i][k] * eb[k][j];
            }
            assert_eq!(f(p.get_value(i, j).unwrap()).to_bits(), sum.to_bits());
        }
    }
}

#[test]
fn product_shape_and_identity() {
    let a = mat(vec![vec![1.5, 2.5, 3.5], vec![4.5, 5.5, 6.5]]);
    let eye = mat(vec![
        vec![1.0, 0.0, 0.0],
        vec![0.0, 1.0, 0.0],
        vec![0.0, 0.0, 1.0],
    ]);
    let p = a.mul(&eye).unwrap();
    assert_eq!(p.rows, 2);
    assert_eq!(p.cols, 3);
    for i in 0..2 {
        for j in 0..3 {
            let got = f(p.get_value(i, j).unwrap());
            let want = f(a.get_value(i, j).unwrap());
            assert!((got - want).abs() < 1e-12);
        }
    }
}

#[test]
fn add_sub_are_inverses() {
    let a = mat(vec![vec![0.1, -2.75], vec![3.33, 0.002]]);
    let b = mat(vec![vec![0.2, 1.5], vec![-7.25, 0.4]]);
    let back = a.add(&b).unwrap().sub(&b).unwrap();
    for i in 0..2 {
        for j in 0..2 {
            let got = f(back.get_value(i, j).unwrap());
            let want = f(a.get_value(i, j).unwrap());
            assert!((got - want).abs() < 1e-12);
        }
    }
}

#[test]
fn sigmoid_range_monotone_and_half() {
    let mut m = mat(vec![vec![-4.0, -1.0, 0.0, 1.0, 4.0]]);
    m.apply_sigmoid();
    let mut prev = 0.0f64;
    for j in 0..5 {
        let v = f(m.get_value(0, j).unwrap());
        assert!(v > 0.0 && v < 1.0);
        assert!(v > prev);
        prev = v;
    }
    assert_eq!(f(m.get_value(0, 2).unwrap()), 0.5);
    let xs = [-4.0f64, -1.0, 0.0, 1.0, 4.0];
    for j in 0..5 {
        let v = f(m.get_value(0, j).unwrap());
        let want = 1.0 / (1.0 + (-xs[j]).exp());
        assert!((v - want).abs() < 1e-9);
    }
}

#[test]
fn mismatched_shapes_are_rejected() {
    let a = mat(vec![vec![1.0, 2.0, 3.0], vec![4.0, 5.0, 6.0]]);
    let b = mat(vec![vec![1.0, 2.0], vec![3.0, 4.0]]);
    assert!(matches!(a.mul(&b), Err(Error::ShapeError)));
    assert!(matches!(a.add(&b), Err(Error::ShapeError)));
    assert!(matches!(a.sub(&b), Err(Error::ShapeError)));
}

#[test]
fn random_entries_lie_in_range() {
    let m = Matrix::random(4, 4, (-2.0f64).to_bits(), 2.0f64.to_bits());
    assert_eq!(m.rows, 4);
    assert_eq!(m.cols, 4);
    for i in 0..4 {
        for j in 0..4 {
            let v = f(m.get_value(i, j).unwrap());
            assert!(v.is_finite());
            assert!(v >= -2.0 && v <= 2.0);
        }
    }
}

#[test]
fn rand_refills_in_place() {
    let mut m = Matrix::zeros(3, 2);
    m.rand(1.0f64.to_bits(), 2.0f64.to_bits());
    assert_eq!(m.rows, 3);
    assert_eq!(m.cols, 2);
    for i in 0..3 {
        for j in 0..2 {
            let v = f(m.get_value(i, j).unwrap());
            assert!(v >= 1.0 && v <= 2.0);
        }
    }
}
