use vstd::prelude::*;

use crate::Error;
use crate::NeuralNetwork;
use crate::cost_bits;
use crate::fd_bias;
use crate::fd_weight;
use crate::grids_of;
use crate::matrix::Matrix;
use crate::matrix::mat_descend_grid;
use crate::nudge;
use crate::propagate;
use crate::scalar::ONE_WORD;
use crate::scalar::TENTH_WORD;
use crate::scalar::ZERO_WORD;
use crate::scalar::div_bits;
use crate::scalar::sub_bits;
use vstd::pervasive::unreached;

verus! {

/// The finite-difference gradient entry for weight grids given directly:
/// as `fd_weight`, over raw parameter stacks.
pub open spec fn fd_weight_grids(
    ws: Seq<Seq<Seq<u64>>>,
    bs: Seq<Seq<Seq<u64>>>,
    xg: Seq<Seq<u64>>,
    yg: Seq<Seq<u64>>,
    eps: u64,
    l: int,
    r: int,
    c: int,
) -> u64 {
    div_bits(
        sub_bits(
            cost_bits(nudge(ws, l, r, c, eps), bs, xg, yg, ws.len() as int),
            cost_bits(ws, bs, xg, yg, ws.len() as int),
        ),
        eps,
    )
}

/// The finite-difference gradient entry for bias grids given directly:
/// as `fd_bias`, over raw parameter stacks.
pub open spec fn fd_bias_grids(
    ws: Seq<Seq<Seq<u64>>>,
    bs: Seq<Seq<Seq<u64>>>,
    xg: Seq<Seq<u64>>,
    yg: Seq<Seq<u64>>,
    eps: u64,
    l: int,
    r: int,
    c: int,
) -> u64 {
    div_bits(
        sub_bits(
            cost_bits(ws, nudge(bs, l, r, c, eps), xg, yg, ws.len() as int),
            cost_bits(ws, bs, xg, yg, ws.len() as int),
        ),
        eps,
    )
}

/// The full finite-difference weight gradient of the parameter stacks on
/// a training set.
pub open spec fn grad_weights(
    ws: Seq<Seq<Seq<u64>>>,
    bs: Seq<Seq<Seq<u64>>>,
    xg: Seq<Seq<u64>>,
    yg: Seq<Seq<u64>>,
    eps: u64,
) -> Seq<Seq<Seq<u64>>> {
    Seq::new(
        ws.len(),
        |l: int|
            Seq::new(
                ws[l].len(),
                |r: int|
                    Seq::new(
                        ws[l][r].len(),
                        |c: int| fd_weight_grids(ws, bs, xg, yg, eps, l, r, c),
                    ),
            ),
    )
}

/// The full finite-difference bias gradient of the parameter stacks on a
/// training set.
pub open spec fn grad_biases(
    ws: Seq<Seq<Seq<u64>>>,
    bs: Seq<Seq<Seq<u64>>>,
    xg: Seq<Seq<u64>>,
    yg: Seq<Seq<u64>>,
    eps: u64,
) -> Seq<Seq<Seq<u64>>> {
    Seq::new(
        bs.len(),
        |l: int|
            Seq::new(
                bs[l].len(),
                |r: int|
                    Seq::new(
                        bs[l][r].len(),
                        |c: int| fd_bias_grids(ws, bs, xg, yg, eps, l, r, c),
                    ),
            ),
    )
}

/// Every grid of a stack stepped against the matching gradient grid at
/// the given rate.
pub open spec fn descend_stack(
    gs: Seq<Seq<Seq<u64>>>,
    grad: Seq<Seq<Seq<u64>>>,
    rate: u64,
) -> Seq<Seq<Seq<u64>>> {
    Seq::new(gs.len(), |l: int| mat_descend_grid(gs[l], grad[l], rate))
}

/// The parameter stacks after `n` full training epochs on the set
/// `(xg, yg)`: each epoch takes the finite-difference gradient of both
/// stacks at the current parameters and descends both at the given rate.
pub open spec fn train_params(
    ws: Seq<Seq<Seq<u64>>>,
    bs: Seq<Seq<Seq<u64>>>,
    xg: Seq<Seq<u64>>,
    yg: Seq<Seq<u64>>,
    eps: u64,
    rate: u64,
    n: int,
) -> (Seq<Seq<Seq<u64>>>, Seq<Seq<Seq<u64>>>)
    decreases n,
{
    if n <= 0 {
        (ws, bs)
    } else {
        let (pw, pb) = train_params(ws, bs, xg, yg, eps, rate, n - 1);
        (
            descend_stack(pw, grad_weights(pw, pb, xg, yg, eps), rate),
            descend_stack(pb, grad_biases(pw, pb, xg, yg, eps), rate),
        )
    }
}

/// Number of finite-difference training passes that `Or::train` runs.
pub const OR_EPOCHS: usize = 2000;

/// The OR truth-table inputs, one example row per grid row.
pub open spec fn or_inputs() -> Seq<Seq<u64>> {
    seq![
        seq![ZERO_WORD, ZERO_WORD],
        seq![ZERO_WORD, ONE_WORD],
        seq![ONE_WORD, ZERO_WORD],
        seq![ONE_WORD, ONE_WORD],
    ]
}

/// The OR truth-table targets, one per example row.
pub open spec fn or_targets() -> Seq<Seq<u64>> {
    seq![seq![ZERO_WORD], seq![ONE_WORD], seq![ONE_WORD], seq![ONE_WORD]]
}

/// A trainable two-input OR unit: a two-layer network (two inputs, one
/// output neuron) and a flag recording whether training has run.
pub struct Or {
    pub net: NeuralNetwork,
    pub trained: bool,
}

impl Or {
    /// The structural invariant: the network has exactly two layers,
    /// two inputs wide and one output wide.
    pub open spec fn wf(self) -> bool {
        &&& self.net.wf()
        &&& self.net.count == 2
        &&& self.net.activations@[0].cols == 2
        &&& self.net.activations@[1].cols == 1
    }

    /// The response to the input words `(x1, x2)`: the network's
    /// single output after one forward pass.
    pub open spec fn response(self, x1: u64, x2: u64) -> u64 {
        propagate(self.net.wgrids(), self.net.bgrids(), seq![seq![x1, x2]], 1)[0][0]
    }

    /// Builds an untrained OR unit whose weight and bias are uniform
    /// random draws between zero and one. Which words are drawn is not
    /// promised, but every parameter entry lies in the image of the draw.
    pub fn new() -> (g: Or)
        ensures
            g.wf(),
            !g.trained,
            forall|i: int| 0 <= i < g.net.weights@.len() ==> (
            #[trigger] g.net.weights@[i]).all_from_draw(ZERO_WORD, ONE_WORD),
            forall|i: int| 0 <= i < g.net.biases@.len() ==> (
            #[trigger] g.net.biases@[i]).all_from_draw(ZERO_WORD, ONE_WORD),
    {
        let mut architecture: Vec<usize> = Vec::new();
        architecture.push(2);
        architecture.push(1);
        let ghost a = architecture@;
        let mut net = match NeuralNetwork::new(architecture) {
            Ok(n) => n,
            Err(_) => {
                proof {
                    assert(a.len() == 2);
                    assert(a[0] == 2usize && a[1] == 1usize);
                    assert(false);
                }
                unreached()
            },
        };
        net.rand(ZERO_WORD, ONE_WORD);
        Or { net, trained: false }
    }

    /// Trains on the OR truth table for a fixed number of epochs: each
    /// epoch estimates the finite-difference gradient with a step of one
    /// tenth and descends at a rate of one tenth.
    pub fn train(&mut self)
        requires
            old(self).wf(),
        ensures
            final(self).wf(),
            final(self).trained,
            final(self).net.wgrids() == train_params(
                old(self).net.wgrids(),
                old(self).net.bgrids(),
                or_inputs(),
                or_targets(),
                TENTH_WORD,
                TENTH_WORD,
                OR_EPOCHS as int,
            ).0,
            final(self).net.bgrids() == train_params(
                old(self).net.wgrids(),
                old(self).net.bgrids(),
                or_inputs(),
                or_targets(),
                TENTH_WORD,
                TENTH_WORD,
                OR_EPOCHS as int,
            ).1,
    {
        let mut x = Matrix::zeros(4, 2);
        let mut y = Matrix::zeros(4, 1);
        proof {
            assert(x.entry(0, 0) == ZERO_WORD && x.entry(0, 1) == ZERO_WORD);
            assert(x.entry(1, 0) == ZERO_WORD && x.entry(1, 1) == ZERO_WORD);
            assert(x.entry(2, 0) == ZERO_WORD && x.entry(2, 1) == ZERO_WORD);
            assert(x.entry(3, 0) == ZERO_WORD && x.entry(3, 1) == ZERO_WORD);
            assert(y.entry(0, 0) == ZERO_WORD && y.entry(1, 0) == ZERO_WORD && y.entry(2, 0)
                == ZERO_WORD && y.entry(3, 0) == ZERO_WORD);
        }
        x.put(1, 1, ONE_WORD);
        x.put(2, 0, ONE_WORD);
        x.put(3, 0, ONE_WORD);
        x.put(3, 1, ONE_WORD);
        y.put(1, 0, ONE_WORD);
        y.put(2, 0, ONE_WORD);
        y.put(3, 0, ONE_WORD);
        proof {
            assert(x.grid().len() == 4 && y.grid().len() == 4);
            assert(x.grid()[0].len() == 2 && x.grid()[1].len() == 2 && x.grid()[2].len() == 2
                && x.grid()[3].len() == 2);
            assert(y.grid()[0].len() == 1 && y.grid()[1].len() == 1 && y.grid()[2].len() == 1
                && y.grid()[3].len() == 1);
            assert(x.grid()[0][0] == ZERO_WORD && x.grid()[0][1] == ZERO_WORD);
            assert(x.grid()[1][0] == ZERO_WORD && x.grid()[1][1] == ONE_WORD);
            assert(x.grid()[2][0] == ONE_WORD && x.grid()[2][1] == ZERO_WORD);
            assert(x.grid()[3][0] == ONE_WORD && x.grid()[3][1] == ONE_WORD);
            assert(y.grid()[0][0] == ZERO_WORD && y.grid()[1][0] == ONE_WORD && y.grid()[2][0]
                == ONE_WORD && y.grid()[3][0] == ONE_WORD);
            assert(x.grid()[0] =~= or_inputs()[0]);
            assert(x.grid()[1] =~= or_inputs()[1]);
            assert(x.grid()[2] =~= or_inputs()[2]);
            assert(x.grid()[3] =~= or_inputs()[3]);
            assert(y.grid()[0] =~= or_targets()[0]);
            assert(y.grid()[1] =~= or_targets()[1]);
            assert(y.grid()[2] =~= or_targets()[2]);
            assert(y.grid()[3] =~= or_targets()[3]);
            assert(x.grid() =~~= or_inputs());
            assert(y.grid() =~~= or_targets());
        }
        let ghost w0 = self.net.wgrids();
        let ghost b0 = self.net.bgrids();
        let mut e: usize = 0;
        while e < OR_EPOCHS
            invariant
                self.wf(),
                x.wf(),
                x.rows == 4,
                x.cols == 2,
                x.grid() == or_inputs(),
                y.wf(),
                y.rows == 4,
                y.cols == 1,
                y.grid() == or_targets(),
                e <= OR_EPOCHS,
                self.net.wgrids() == train_params(
                    w0,
                    b0,
                    or_inputs(),
                    or_targets(),
                    TENTH_WORD,
                    TENTH_WORD,
                    e as int,
                ).0,
                self.net.bgrids() == train_params(
                    w0,
                    b0,
                    or_inputs(),
                    or_targets(),
                    TENTH_WORD,
                    TENTH_WORD,
                    e as int,
                ).1,
            decreases OR_EPOCHS - e,
        {
            let ghost pw = self.net.wgrids();
            let ghost pb = self.net.bgrids();
            let gradient = match self.net.diff(&x, &y, TENTH_WORD) {
                Ok(g) => g,
                Err(_) => unreached(),
            };
            proof {
                assert forall|i: int| 0 <= i < self.net.count implies (
                #[trigger] self.net.activations@[i]).cols == gradient.activations@[i].cols by {
                    assert(gradient.activations@[i].cols == self.net.activations@[i].cols);
                }
                assert(self.net.same_arch(gradient));
                assert forall|l: int| 0 <= l < pw.len() implies #[trigger] grids_of(
                    gradient.weights@,
                )[l] =~~= grad_weights(pw, pb, or_inputs(), or_targets(), TENTH_WORD)[l] by {
                    assert(gradient.weights@[l].wf());
                    assert(gradient.weights@[l].same_shape(self.net.weights@[l]));
                    assert(self.net.weights@[l].wf());
                    assert(pw[l] == self.net.weights@[l].grid());
                    assert(pw[l].len() == self.net.weights@[l].rows);
                    assert forall|r: int| 0 <= r < self.net.weights@[l].rows implies (
                    #[trigger] pw[l][r]).len() == self.net.weights@[l].cols by {
                        assert(self.net.weights@[l].grid()[r].len() == self.net.weights@[l].cols);
                    }
                    assert forall|r: int, c: int|
                        0 <= r < self.net.weights@[l].rows && 0 <= c
                            < self.net.weights@[l].cols implies #[trigger] gradient.weights@[l].grid()[r][c]
                        == fd_weight_grids(
                        pw,
                        pb,
                        or_inputs(),
                        or_targets(),
                        TENTH_WORD,
                        l,
                        r,
                        c,
                    ) by {
                        assert(gradient.weights@[l].entry(r, c) == gradient.weights@[l].grid()[r][c]);
                        assert(gradient.weights@[l].entry(r, c) == fd_weight(
                            self.net,
                            x,
                            y,
                            TENTH_WORD,
                            l,
                            r,
                            c,
                        ));
                    }
                }
                assert(grids_of(gradient.weights@) =~~= grad_weights(
                    pw,
                    pb,
                    or_inputs(),
                    or_targets(),
                    TENTH_WORD,
                ));
                assert forall|l: int| 0 <= l < pb.len() implies #[trigger] grids_of(
                    gradient.biases@,
                )[l] =~~= grad_biases(pw, pb, or_inputs(), or_targets(), TENTH_WORD)[l] by {
                    assert(gradient.biases@[l].wf());
                    assert(gradient.biases@[l].same_shape(self.net.biases@[l]));
                    assert(self.net.biases@[l].wf());
                    assert(pb[l] == self.net.biases@[l].grid());
                    assert(pb[l].len() == self.net.biases@[l].rows);
                    assert forall|r: int| 0 <= r < self.net.biases@[l].rows implies (
                    #[trigger] pb[l][r]).len() == self.net.biases@[l].cols by {
                        assert(self.net.biases@[l].grid()[r].len() == self.net.biases@[l].cols);
                    }
                    assert forall|r: int, c: int|
                        0 <= r < self.net.biases@[l].rows && 0 <= c
                            < self.net.biases@[l].cols implies #[trigger] gradient.biases@[l].grid()[r][c]
                        == fd_bias_grids(
                        pw,
                        pb,
                        or_inputs(),
                        or_targets(),
                        TENTH_WORD,
                        l,
                        r,
                        c,
                    ) by {
                        assert(gradient.biases@[l].entry(r, c) == gradient.biases@[l].grid()[r][c]);
                        assert(gradient.biases@[l].entry(r, c) == fd_bias(
                            self.net,
                            x,
                            y,
                            TENTH_WORD,
                            l,
                            r,
                            c,
                        ));
                    }
                }
                assert(grids_of(gradient.biases@) =~~= grad_biases(
                    pw,
                    pb,
                    or_inputs(),
                    or_targets(),
                    TENTH_WORD,
                ));
            }
            match self.net.learn(&gradient, TENTH_WORD) {
                Ok(()) => (),
                Err(_) => unreached(),
            };
            proof {
                assert(self.net.wgrids() =~~= descend_stack(
                    pw,
                    grad_weights(pw, pb, or_inputs(), or_targets(), TENTH_WORD),
                    TENTH_WORD,
                ));
                assert(self.net.bgrids() =~~= descend_stack(
                    pb,
                    grad_biases(pw, pb, or_inputs(), or_targets(), TENTH_WORD),
                    TENTH_WORD,
                ));
            }
            e = e + 1;
        }
        self.trained = true;
    }

    /// The prediction for two boolean inputs, each mapped to the zero or
    /// one word; fails with `NotTrainedError` exactly when training never
    /// ran, leaving everything unchanged. The parameters are untouched
    /// either way.
    pub fn predict(&mut self, x1: bool, x2: bool) -> (res: Result<u64, Error>)
        requires
            old(self).wf(),
        ensures
            final(self).wf(),
            final(self).trained == old(self).trained,
            final(self).net.weights@ == old(self).net.weights@,
            final(self).net.biases@ == old(self).net.biases@,
            match res {
                Ok(v) => old(self).trained && v == old(self).response(
                    if x1 {
                        ONE_WORD
                    } else {
                        ZERO_WORD
                    },
                    if x2 {
                        ONE_WORD
                    } else {
                        ZERO_WORD
                    },
                ),
                Err(e) => e == Error::NotTrainedError && !old(self).trained && *final(self)
                    == *old(self),
            },
    {
        if !self.trained {
            return Err(Error::NotTrainedError);
        }
        let w1 = if x1 {
            ONE_WORD
        } else {
            ZERO_WORD
        };
        let w2 = if x2 {
            ONE_WORD
        } else {
            ZERO_WORD
        };
        let mut a0 = Matrix::zeros(1, 2);
        a0.put(0, 0, w1);
        a0.put(0, 1, w2);
        proof {
            assert(a0.grid() =~~= seq![seq![w1, w2]]);
        }
        self.net.activations[0] = a0;
        self.net.forward();
        let v = self.net.output().at(0, 0);
        proof {
            assert(self.net.activations@[1].grid()[0][0] == old(self).response(w1, w2));
        }
        Ok(v)
    }
}

} // verus!
