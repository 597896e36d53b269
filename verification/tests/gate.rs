use nn::Error;
use nn::gates::Or;

#[test]
fn untrained_gate_refuses_to_predict() {
    let mut g = Or::new();
    assert_eq!(g.predict(true, false), Err(Error::NotTrainedError));
}

#[test]
fn trained_gate_learns_or() {
    let mut g = Or::new();
    g.train();
    let low = f64::from_bits(g.predict(false, false).unwrap());
    assert!(low < 0.5, "0 or 0 gave {low}");
    for (a, b) in [(false, true), (true, false), (true, true)] {
        let v = f64::from_bits(g.predict(a, b).unwrap());
        assert!(v > 0.5, "{a} or {b} gave {v}");
    }
}
