use vstd::prelude::*;

pub mod gates;
pub mod matrix;
pub mod scalar;

use crate::matrix::Matrix;
use crate::matrix::mat_add_grid;
use crate::matrix::mat_descend_grid;
use crate::matrix::mat_mul_grid;
use crate::matrix::mat_sigmoid_grid;
use crate::scalar::ZERO_WORD;
use crate::scalar::add_bits;
use crate::scalar::add_words;
use crate::scalar::div_bits;
use crate::scalar::div_words;
use crate::scalar::mul_bits;
use crate::scalar::mul_words;
use crate::scalar::sub_bits;
use crate::scalar::sub_words;
use crate::scalar::widen_bits;
use crate::scalar::widen_word;

verus! {

/// The failure conditions a caller can meet: incompatible operand
/// shapes, a malformed architecture, an out-of-range element access,
/// or inference on an OR unit that was never trained.
#[derive(Clone, Copy, Debug, PartialEq, Eq, Structural)]
pub enum Error {
    ShapeError,
    ConfigError,
    IndexError,
    NotTrainedError,
}

/// The grids of a stack of matrices, in order.
pub open spec fn grids_of(s: Seq<Matrix>) -> Seq<Seq<Seq<u64>>> {
    Seq::new(s.len(), |i: int| s[i].grid())
}

/// One layer's response to the activation grid `a`: the product with the
/// weight grid `wg`, plus the bias grid `bg`, passed through the sigmoid.
pub open spec fn layer_out(a: Seq<Seq<u64>>, wg: Seq<Seq<u64>>, bg: Seq<Seq<u64>>) -> Seq<
    Seq<u64>,
> {
    mat_sigmoid_grid(mat_add_grid(mat_mul_grid(a, wg, wg[0].len()), bg))
}

/// The activation grid that the first `i` layers produce from the input
/// grid `a0`, each layer feeding the next in order.
pub open spec fn propagate(
    ws: Seq<Seq<Seq<u64>>>,
    bs: Seq<Seq<Seq<u64>>>,
    a0: Seq<Seq<u64>>,
    i: int,
) -> Seq<Seq<u64>>
    decreases i,
{
    if i <= 0 {
        a0
    } else {
        layer_out(propagate(ws, bs, a0, i - 1), ws[i - 1], bs[i - 1])
    }
}

/// The squared difference of position `j` of an output row and of a
/// target row.
pub open spec fn sq_term(out: Seq<u64>, y: Seq<u64>, j: int) -> u64 {
    let d = sub_bits(out[j], y[j]);
    mul_bits(d, d)
}

/// The accumulator `c0` after the first `t` squared differences of one
/// example row are folded onto it in ascending position.
pub open spec fn row_sum(c0: u64, out: Seq<u64>, y: Seq<u64>, t: int) -> u64
    decreases t,
{
    if t <= 0 {
        c0
    } else {
        add_bits(row_sum(c0, out, y, t - 1), sq_term(out, y, t - 1))
    }
}

/// The running squared-error total over the first `n` example rows of the
/// training set `(xg, yg)`, each row propagated through all `layers`
/// layers, accumulated in row order from the zero word.
pub open spec fn total_err(
    ws: Seq<Seq<Seq<u64>>>,
    bs: Seq<Seq<Seq<u64>>>,
    xg: Seq<Seq<u64>>,
    yg: Seq<Seq<u64>>,
    layers: int,
    n: int,
) -> u64
    decreases n,
{
    if n <= 0 {
        ZERO_WORD
    } else {
        let prev = total_err(ws, bs, xg, yg, layers, n - 1);
        let out = propagate(ws, bs, seq![xg[n - 1]], layers)[0];
        row_sum(prev, out, yg[n - 1], yg[n - 1].len() as int)
    }
}

/// The mean squared error of the parameter stacks `(ws, bs)` on the
/// training set `(xg, yg)`: the squared-error total over all rows,
/// divided by the row count.
pub open spec fn cost_bits(
    ws: Seq<Seq<Seq<u64>>>,
    bs: Seq<Seq<Seq<u64>>>,
    xg: Seq<Seq<u64>>,
    yg: Seq<Seq<u64>>,
    layers: int,
) -> u64 {
    div_bits(total_err(ws, bs, xg, yg, layers, xg.len() as int), widen_bits(xg.len() as u64))
}

/// The grid stack `gs` with `eps` added to entry `(r, c)` of grid `l`.
pub open spec fn nudge(gs: Seq<Seq<Seq<u64>>>, l: int, r: int, c: int, eps: u64) -> Seq<
    Seq<Seq<u64>>,
> {
    gs.update(l, gs[l].update(r, gs[l][r].update(c, add_bits(gs[l][r][c], eps))))
}

/// A parameter stack fit for an input of `in_cols` entries: as many bias
/// matrices as weight matrices, every weight matrix as tall as the
/// previous layer is wide, every bias a single row as wide as its layer.
pub open spec fn stack_wf(ws: Seq<Matrix>, bs: Seq<Matrix>, in_cols: int) -> bool {
    &&& bs.len() == ws.len()
    &&& in_cols >= 1
    &&& forall|i: int| 0 <= i < ws.len() ==> {
        let w = #[trigger] ws[i];
        &&& w.wf()
        &&& w.rows == (if i == 0 {
            in_cols
        } else {
            ws[i - 1].cols as int
        })
        &&& w.cols >= 1
    }
    &&& forall|i: int| 0 <= i < ws.len() ==> {
        let b = #[trigger] bs[i];
        &&& b.wf()
        &&& b.rows == 1
        &&& b.cols == ws[i].cols
    }
}

/// A feed-forward network: an ordered stack of weight and bias matrices
/// between consecutive layers, and one single-row activation buffer per
/// layer. `count` is the number of layers.
pub struct NeuralNetwork {
    pub count: usize,
    pub weights: Vec<Matrix>,
    pub biases: Vec<Matrix>,
    pub activations: Vec<Matrix>,
}

/// The finite-difference estimate of the cost gradient with respect to
/// entry `(r, c)` of weight matrix `l`: the cost with that entry nudged by
/// `eps`, minus the baseline cost, divided by `eps`.
pub open spec fn fd_weight(
    n: NeuralNetwork,
    x: Matrix,
    y: Matrix,
    eps: u64,
    l: int,
    r: int,
    c: int,
) -> u64 {
    div_bits(
        sub_bits(
            cost_bits(
                nudge(n.wgrids(), l, r, c, eps),
                n.bgrids(),
                x.grid(),
                y.grid(),
                n.count - 1,
            ),
            cost_bits(n.wgrids(), n.bgrids(), x.grid(), y.grid(), n.count - 1),
        ),
        eps,
    )
}

/// The finite-difference estimate of the cost gradient with respect to
/// entry `(r, c)` of bias matrix `l`, built as `fd_weight` is.
pub open spec fn fd_bias(
    n: NeuralNetwork,
    x: Matrix,
    y: Matrix,
    eps: u64,
    l: int,
    r: int,
    c: int,
) -> u64 {
    div_bits(
        sub_bits(
            cost_bits(
                n.wgrids(),
                nudge(n.bgrids(), l, r, c, eps),
                x.grid(),
                y.grid(),
                n.count - 1,
            ),
            cost_bits(n.wgrids(), n.bgrids(), x.grid(), y.grid(), n.count - 1),
        ),
        eps,
    )
}

/// Copies a stack of matrices entry for entry.
fn dup_stack(v: &Vec<Matrix>) -> (r: Vec<Matrix>)
    requires
        forall|i: int| 0 <= i < v@.len() ==> (#[trigger] v@[i]).wf(),
    ensures
        r@.len() == v@.len(),
        forall|i: int| 0 <= i < v@.len() ==> {
            let m = #[trigger] r@[i];
            &&& m.wf()
            &&& m.rows == v@[i].rows
            &&& m.cols == v@[i].cols
            &&& m.grid() == v@[i].grid()
        },
{
    let mut r: Vec<Matrix> = Vec::new();
    let mut i: usize = 0;
    while i < v.len()
        invariant
            i <= v@.len(),
            r@.len() == i,
            forall|p: int| 0 <= p < v@.len() ==> (#[trigger] v@[p]).wf(),
            forall|p: int| 0 <= p < i ==> {
                let m = #[trigger] r@[p];
                &&& m.wf()
                &&& m.rows == v@[p].rows
                &&& m.cols == v@[p].cols
                &&& m.grid() == v@[p].grid()
            },
        decreases v@.len() - i,
    {
        r.push(v[i].duplicate());
        i = i + 1;
    }
    r
}

/// Propagates the single-row input `a0` through the parameter stacks,
/// layer by layer, and returns the last activation.
fn eval_from(ws: &Vec<Matrix>, bs: &Vec<Matrix>, a0: &Matrix) -> (out: Matrix)
    requires
        a0.wf(),
        a0.rows == 1,
        stack_wf(ws@, bs@, a0.cols as int),
    ensures
        out.wf(),
        out.rows == 1,
        out.cols == (if ws@.len() == 0 {
            a0.cols as int
        } else {
            ws@[ws@.len() - 1].cols as int
        }),
        out.grid() == propagate(grids_of(ws@), grids_of(bs@), a0.grid(), ws@.len() as int),
{
    let mut a = a0.duplicate();
    let mut i: usize = 0;
    while i < ws.len()
        invariant
            a0.wf(),
            a0.rows == 1,
            stack_wf(ws@, bs@, a0.cols as int),
            i <= ws@.len(),
            a.wf(),
            a.rows == 1,
            a.cols == (if i == 0 {
                a0.cols as int
            } else {
                ws@[i - 1].cols as int
            }),
            a.grid() == propagate(grids_of(ws@), grids_of(bs@), a0.grid(), i as int),
        decreases ws@.len() - i,
    {
        let t = a.mul_core(&ws[i]);
        let mut t2 = t.add_core(&bs[i]);
        t2.apply_sigmoid();
        proof {
            assert(ws@[i as int].grid()[0].len() == ws@[i as int].cols);
            assert(grids_of(ws@)[i as int] == ws@[i as int].grid());
            assert(grids_of(bs@)[i as int] == bs@[i as int].grid());
        }
        a = t2;
        i = i + 1;
    }
    a
}

/// Computes the mean squared error of the parameter stacks on the
/// training set, row by row in order.
fn cost_core(ws: &Vec<Matrix>, bs: &Vec<Matrix>, inputs: &Matrix, targets: &Matrix) -> (c: u64)
    requires
        inputs.wf(),
        targets.wf(),
        inputs.rows == targets.rows,
        ws@.len() >= 1,
        stack_wf(ws@, bs@, inputs.cols as int),
        targets.cols == ws@[ws@.len() - 1].cols,
    ensures
        c == cost_bits(
            grids_of(ws@),
            grids_of(bs@),
            inputs.grid(),
            targets.grid(),
            ws@.len() as int,
        ),
{
    let n = inputs.rows;
    let mut total: u64 = ZERO_WORD;
    let mut i: usize = 0;
    while i < n
        invariant
            inputs.wf(),
            targets.wf(),
            inputs.rows == n,
            targets.rows == n,
            ws@.len() >= 1,
            stack_wf(ws@, bs@, inputs.cols as int),
            targets.cols == ws@[ws@.len() - 1].cols,
            i <= n,
            total == total_err(
                grids_of(ws@),
                grids_of(bs@),
                inputs.grid(),
                targets.grid(),
                ws@.len() as int,
                i as int,
            ),
        decreases n - i,
    {
        let x = inputs.row_core(i);
        proof {
            assert(x.grid() =~= seq![inputs.grid()[i as int]]);
        }
        let out = eval_from(ws, bs, &x);
        let ghost prev = total;
        let mut j: usize = 0;
        while j < targets.cols
            invariant
                inputs.wf(),
                targets.wf(),
                i < n,
                targets.rows == n,
                j <= targets.cols,
                out.wf(),
                out.rows == 1,
                out.cols == targets.cols,
                total == row_sum(
                    prev,
                    out.grid()[0],
                    targets.grid()[i as int],
                    j as int,
                ),
            decreases targets.cols - j,
        {
            let d = sub_words(out.at(0, j), targets.at(i, j));
            total = add_words(total, mul_words(d, d));
            proof {
                assert(out.entry(0, j as int) == out.grid()[0][j as int]);
                assert(targets.entry(i as int, j as int) == targets.grid()[i as int][j as int]);
            }
            j = j + 1;
        }
        proof {
            assert(targets.grid()[i as int].len() == targets.cols);
        }
        i = i + 1;
    }
    div_words(total, widen_word(n as u64))
}

impl NeuralNetwork {
    /// The grids of the weight stack.
    pub open spec fn wgrids(self) -> Seq<Seq<Seq<u64>>> {
        grids_of(self.weights@)
    }

    /// The grids of the bias stack.
    pub open spec fn bgrids(self) -> Seq<Seq<Seq<u64>>> {
        grids_of(self.biases@)
    }

    /// The structural invariant: one weight and one bias matrix between
    /// consecutive layers, one single-row activation buffer per layer, and
    /// all the shape relations between them.
    pub open spec fn wf(self) -> bool {
        &&& 2 <= self.count
        &&& self.weights@.len() == self.count - 1
        &&& self.biases@.len() == self.count - 1
        &&& self.activations@.len() == self.count
        &&& forall|i: int| 0 <= i < self.count ==> {
            let a = #[trigger] self.activations@[i];
            &&& a.wf()
            &&& a.rows == 1
            &&& a.cols >= 1
        }
        &&& forall|i: int| 0 <= i < self.count - 1 ==> {
            let w = #[trigger] self.weights@[i];
            &&& w.wf()
            &&& w.rows == self.activations@[i].cols
            &&& w.cols == self.activations@[i + 1].cols
        }
        &&& forall|i: int| 0 <= i < self.count - 1 ==> {
            let b = #[trigger] self.biases@[i];
            &&& b.wf()
            &&& b.rows == 1
            &&& b.cols == self.activations@[i + 1].cols
        }
    }

    /// Two networks describe one architecture: equal layer counts and
    /// equal layer widths throughout.
    pub open spec fn same_arch(self, other: NeuralNetwork) -> bool {
        &&& self.count == other.count
        &&& forall|i: int| 0 <= i < self.count ==> (#[trigger] self.activations@[i]).cols
            == other.activations@[i].cols
    }

    /// Builds a zero-initialized network over the given architecture:
    /// layer `i` is `architecture[i]` neurons wide. Fails with
    /// `ConfigError` exactly when the architecture has fewer than two
    /// entries or a zero entry.
    pub fn new(architecture: Vec<usize>) -> (res: Result<NeuralNetwork, Error>)
        ensures
            match res {
                Ok(n) => {
                    &&& architecture@.len() >= 2
                    &&& (forall|i: int| 0 <= i < architecture@.len() ==> #[trigger] architecture@[i]
                        > 0)
                    &&& n.wf()
                    &&& n.count == architecture@.len()
                    &&& (forall|i: int| 0 <= i < n.count ==> (#[trigger] n.activations@[i]).cols
                        == architecture@[i])
                    &&& (forall|i: int| 0 <= i < n.count ==> (
                    #[trigger] n.activations@[i]).all_zero())
                    &&& (forall|i: int| 0 <= i < n.count - 1 ==> (
                    #[trigger] n.weights@[i]).all_zero())
                    &&& (forall|i: int| 0 <= i < n.count - 1 ==> (#[trigger] n.biases@[i]).all_zero())
                },
                Err(e) => {
                    &&& e == Error::ConfigError
                    &&& (architecture@.len() < 2 || exists|i: int| 0 <= i < architecture@.len()
                        && #[trigger] architecture@[i] == 0)
                },
            },
    {
        if architecture.len() < 2 {
            return Err(Error::ConfigError);
        }
        let mut i: usize = 0;
        while i < architecture.len()
            invariant
                i <= architecture@.len(),
                forall|p: int| 0 <= p < i ==> #[trigger] architecture@[p] > 0,
            decreases architecture@.len() - i,
        {
            if architecture[i] == 0 {
                return Err(Error::ConfigError);
            }
            i = i + 1;
        }
        let mut weights: Vec<Matrix> = Vec::new();
        let mut biases: Vec<Matrix> = Vec::new();
        let mut activations: Vec<Matrix> = Vec::new();
        activations.push(Matrix::zeros(1, architecture[0]));
        let mut i: usize = 1;
        while i < architecture.len()
            invariant
                1 <= i <= architecture@.len(),
                forall|p: int| 0 <= p < architecture@.len() ==> #[trigger] architecture@[p] > 0,
                weights@.len() == i - 1,
                biases@.len() == i - 1,
                activations@.len() == i,
                forall|p: int| 0 <= p < i ==> {
                    let a = #[trigger] activations@[p];
                    &&& a.wf()
                    &&& a.rows == 1
                    &&& a.cols == architecture@[p]
                    &&& a.all_zero()
                },
                forall|p: int| 0 <= p < i - 1 ==> {
                    let w = #[trigger] weights@[p];
                    &&& w.wf()
                    &&& w.rows == architecture@[p]
                    &&& w.cols == architecture@[p + 1]
                    &&& w.all_zero()
                },
                forall|p: int| 0 <= p < i - 1 ==> {
                    let b = #[trigger] biases@[p];
                    &&& b.wf()
                    &&& b.rows == 1
                    &&& b.cols == architecture@[p + 1]
                    &&& b.all_zero()
                },
            decreases architecture@.len() - i,
        {
            let prev_cols = architecture[i - 1];
            weights.push(Matrix::zeros(prev_cols, architecture[i]));
            biases.push(Matrix::zeros(1, architecture[i]));
            activations.push(Matrix::zeros(1, architecture[i]));
            i = i + 1;
        }
        let count = architecture.len();
        Ok(NeuralNetwork { count, weights, biases, activations })
    }

    /// Fills every weight and bias matrix with fresh uniform draws between
    /// the values behind `low` and `high`; the activations and all shapes
    /// are kept. Which words come back is not promised, but every drawn
    /// entry lies in the image of the draw.
    pub fn rand(&mut self, low: u64, high: u64)
        requires
            old(self).wf(),
        ensures
            final(self).wf(),
            final(self).count == old(self).count,
            final(self).activations@ == old(self).activations@,
            final(self).weights@.len() == old(self).weights@.len(),
            final(self).biases@.len() == old(self).biases@.len(),
            forall|i: int| 0 <= i < final(self).weights@.len() ==> (
            #[trigger] final(self).weights@[i]).same_shape(old(self).weights@[i]),
            forall|i: int| 0 <= i < final(self).biases@.len() ==> (
            #[trigger] final(self).biases@[i]).same_shape(old(self).biases@[i]),
            forall|i: int| 0 <= i < final(self).weights@.len() ==> (
            #[trigger] final(self).weights@[i]).all_from_draw(low, high),
            forall|i: int| 0 <= i < final(self).biases@.len() ==> (
            #[trigger] final(self).biases@[i]).all_from_draw(low, high),
    {
        let count = self.count;
        let ghost w0 = self.weights@;
        let ghost b0 = self.biases@;
        let mut i: usize = 0;
        while i < count - 1
            invariant
                self.wf(),
                self.count == count,
                self.activations@ == old(self).activations@,
                self.weights@.len() == w0.len(),
                self.biases@.len() == b0.len(),
                w0 == old(self).weights@,
                b0 == old(self).biases@,
                i <= count - 1,
                forall|p: int| 0 <= p < w0.len() ==> (#[trigger] self.weights@[p]).same_shape(
                    w0[p],
                ),
                forall|p: int| 0 <= p < b0.len() ==> (#[trigger] self.biases@[p]).same_shape(
                    b0[p],
                ),
                forall|p: int| 0 <= p < i ==> (#[trigger] self.weights@[p]).all_from_draw(
                    low,
                    high,
                ),
                forall|p: int| 0 <= p < i ==> (#[trigger] self.biases@[p]).all_from_draw(
                    low,
                    high,
                ),
            decreases count - 1 - i,
        {
            let wi = Matrix::random(self.weights[i].rows, self.weights[i].cols, low, high);
            self.weights[i] = wi;
            let bi = Matrix::random(self.biases[i].rows, self.biases[i].cols, low, high);
            self.biases[i] = bi;
            i = i + 1;
        }
    }

    /// Propagates the first activation buffer through every layer in
    /// order: each later buffer becomes the sigmoid of the previous
    /// buffer's product with that layer's weights, plus its bias. The
    /// parameters and the first buffer are untouched.
    pub fn forward(&mut self)
        requires
            old(self).wf(),
        ensures
            final(self).wf(),
            final(self).count == old(self).count,
            final(self).weights@ == old(self).weights@,
            final(self).biases@ == old(self).biases@,
            final(self).activations@.len() == old(self).activations@.len(),
            forall|i: int| 0 <= i < final(self).activations@.len() ==> (
            #[trigger] final(self).activations@[i]).same_shape(old(self).activations@[i]),
            forall|i: int| 0 <= i < final(self).activations@.len() ==> (
            #[trigger] final(self).activations@[i]).grid() == propagate(
                old(self).wgrids(),
                old(self).bgrids(),
                old(self).activations@[0].grid(),
                i,
            ),
    {
        let count = self.count;
        let ghost w0 = self.weights@;
        let ghost b0 = self.biases@;
        let ghost acts0 = self.activations@;
        let ghost a00 = self.activations@[0].grid();
        let mut i: usize = 0;
        while i < count - 1
            invariant
                self.wf(),
                self.count == count,
                self.weights@ == w0,
                self.biases@ == b0,
                self.activations@.len() == count,
                acts0.len() == count,
                a00 == acts0[0].grid(),
                i <= count - 1,
                forall|p: int| 0 <= p < count ==> (#[trigger] self.activations@[p]).same_shape(
                    acts0[p],
                ),
                forall|p: int|
                    #![trigger self.activations@[p]]
                    #![trigger acts0[p]]
                    0 <= p <= i ==> self.activations@[p].grid() == propagate(
                        grids_of(w0),
                        grids_of(b0),
                        a00,
                        p,
                    ),
                forall|p: int|
                    #![trigger self.activations@[p]]
                    #![trigger acts0[p]]
                    i < p < count ==> self.activations@[p] == acts0[p],
            decreases count - 1 - i,
        {
            let t = self.activations[i].mul_core(&self.weights[i]);
            let mut t2 = t.add_core(&self.biases[i]);
            t2.apply_sigmoid();
            proof {
                assert(self.weights@[i as int].grid()[0].len() == self.weights@[i as int].cols);
                assert(grids_of(w0)[i as int] == w0[i as int].grid());
                assert(grids_of(b0)[i as int] == b0[i as int].grid());
            }
            self.activations[i + 1] = t2;
            i = i + 1;
        }
    }

    /// A reference to the last activation buffer: the network's output,
    /// valid right after `forward`.
    pub fn output(&self) -> (m: &Matrix)
        requires
            self.wf(),
        ensures
            *m == self.activations@[self.count - 1],
    {
        &self.activations[self.count - 1]
    }

    /// Copies the network entry for entry.
    pub fn duplicate(&self) -> (n: NeuralNetwork)
        requires
            self.wf(),
        ensures
            n.wf(),
            n.count == self.count,
            n.same_arch(*self),
            n.weights@.len() == self.weights@.len(),
            n.biases@.len() == self.biases@.len(),
            n.activations@.len() == self.activations@.len(),
            forall|i: int| 0 <= i < self.weights@.len() ==> {
                let m = #[trigger] n.weights@[i];
                &&& m.same_shape(self.weights@[i])
                &&& m.grid() == self.weights@[i].grid()
            },
            forall|i: int| 0 <= i < self.biases@.len() ==> {
                let m = #[trigger] n.biases@[i];
                &&& m.same_shape(self.biases@[i])
                &&& m.grid() == self.biases@[i].grid()
            },
            forall|i: int| 0 <= i < self.activations@.len() ==> {
                let m = #[trigger] n.activations@[i];
                &&& m.same_shape(self.activations@[i])
                &&& m.grid() == self.activations@[i].grid()
            },
    {
        NeuralNetwork {
            count: self.count,
            weights: dup_stack(&self.weights),
            biases: dup_stack(&self.biases),
            activations: dup_stack(&self.activations),
        }
    }

    /// Computes the mean squared error of the network's parameters on a
    /// training set, one propagated row at a time; the network itself is
    /// untouched. Fails with `ShapeError` exactly when the row counts
    /// disagree or a column count disagrees with the architecture.
    pub fn cost(&self, inputs: &Matrix, targets: &Matrix) -> (res: Result<u64, Error>)
        requires
            self.wf(),
            inputs.wf(),
            targets.wf(),
        ensures
            match res {
                Ok(c) => {
                    &&& inputs.rows == targets.rows
                    &&& inputs.cols == self.activations@[0].cols
                    &&& targets.cols == self.activations@[self.count - 1].cols
                    &&& c == cost_bits(
                        self.wgrids(),
                        self.bgrids(),
                        inputs.grid(),
                        targets.grid(),
                        self.count - 1,
                    )
                },
                Err(e) => {
                    &&& e == Error::ShapeError
                    &&& !(inputs.rows == targets.rows && inputs.cols == self.activations@[0].cols
                        && targets.cols == self.activations@[self.count - 1].cols)
                },
            },
    {
        if inputs.rows != targets.rows || inputs.cols != self.activations[0].cols || targets.cols
            != self.activations[self.count - 1].cols {
            return Err(Error::ShapeError);
        }
        proof {
            self.lemma_stack_wf();
        }
        Ok(cost_core(&self.weights, &self.biases, inputs, targets))
    }

    /// A well-formed network's parameter stacks are a well-formed stack
    /// for inputs as wide as its first layer, and its last weight matrix
    /// is as wide as its last layer.
    proof fn lemma_stack_wf(&self)
        requires
            self.wf(),
        ensures
            stack_wf(self.weights@, self.biases@, self.activations@[0].cols as int),
            self.weights@.len() >= 1,
            self.weights@[self.weights@.len() - 1].cols == self.activations@[self.count
                - 1].cols,
    {
        assert forall|i: int| 0 <= i < self.weights@.len() implies {
            let w = #[trigger] self.weights@[i];
            &&& w.wf()
            &&& w.rows == (if i == 0 {
                self.activations@[0].cols as int
            } else {
                self.weights@[i - 1].cols as int
            })
            &&& w.cols >= 1
        } by {
            assert(self.weights@[i].rows == self.activations@[i].cols);
            if i > 0 {
                assert(self.weights@[i - 1].cols == self.activations@[i].cols);
            }
        }
    }

    /// Estimates the cost gradient by forward differences: every weight
    /// and bias entry is nudged by `eps` in turn, in layer, then row, then
    /// column order, and the cost delta against the baseline cost, divided
    /// by `eps`, becomes that entry of the returned network's parameters.
    /// The returned network copies this network's architecture and
    /// activations; this network is untouched. Fails with `ShapeError`
    /// exactly as `cost` does.
    #[verifier::rlimit(100)]
    pub fn diff(&self, inputs: &Matrix, targets: &Matrix, eps: u64) -> (res: Result<
        NeuralNetwork,
        Error,
    >)
        requires
            self.wf(),
            inputs.wf(),
            targets.wf(),
        ensures
            match res {
                Ok(g) => {
                    &&& inputs.rows == targets.rows
                    &&& inputs.cols == self.activations@[0].cols
                    &&& targets.cols == self.activations@[self.count - 1].cols
                    &&& g.wf()
                    &&& g.count == self.count
                    &&& g.same_arch(*self)
                    &&& g.weights@.len() == self.weights@.len()
                    &&& g.biases@.len() == self.biases@.len()
                    &&& g.activations@.len() == self.activations@.len()
                    &&& (forall|i: int| 0 <= i < self.activations@.len() ==> (
                    #[trigger] g.activations@[i]).grid() == self.activations@[i].grid())
                    &&& (forall|l: int| 0 <= l < self.weights@.len() ==> (
                    #[trigger] g.weights@[l]).same_shape(self.weights@[l]))
                    &&& (forall|l: int| 0 <= l < self.biases@.len() ==> (
                    #[trigger] g.biases@[l]).same_shape(self.biases@[l]))
                    &&& (forall|l: int, r: int, c: int|
                        #![trigger g.weights@[l].entry(r, c)]
                        #![trigger fd_weight(*self, *inputs, *targets, eps, l, r, c)]
                        0 <= l < self.weights@.len() && 0 <= r < self.weights@[l].rows && 0 <= c
                            < self.weights@[l].cols ==> g.weights@[l].entry(r, c) == fd_weight(
                            *self,
                            *inputs,
                            *targets,
                            eps,
                            l,
                            r,
                            c,
                        ))
                    &&& (forall|l: int, r: int, c: int|
                        #![trigger g.biases@[l].entry(r, c)]
                        #![trigger fd_bias(*self, *inputs, *targets, eps, l, r, c)]
                        0 <= l < self.biases@.len() && 0 <= r < self.biases@[l].rows && 0 <= c
                            < self.biases@[l].cols ==> g.biases@[l].entry(r, c) == fd_bias(
                            *self,
                            *inputs,
                            *targets,
                            eps,
                            l,
                            r,
                            c,
                        ))
                },
                Err(e) => {
                    &&& e == Error::ShapeError
                    &&& !(inputs.rows == targets.rows && inputs.cols == self.activations@[0].cols
                        && targets.cols == self.activations@[self.count - 1].cols)
                },
            },
    {
        if inputs.rows != targets.rows || inputs.cols != self.activations[0].cols || targets.cols
            != self.activations[self.count - 1].cols {
            return Err(Error::ShapeError);
        }
        proof {
            self.lemma_stack_wf();
        }
        let base = cost_core(&self.weights, &self.biases, inputs, targets);
        let mut g = self.duplicate();
        let count = self.count;
        let mut l: usize = 0;
        while l < count - 1
            invariant
                self.wf(),
                inputs.wf(),
                targets.wf(),
                self.count == count,
                inputs.rows == targets.rows,
                inputs.cols == self.activations@[0].cols,
                targets.cols == self.activations@[self.count - 1].cols,
                stack_wf(self.weights@, self.biases@, inputs.cols as int),
                targets.cols == self.weights@[self.weights@.len() - 1].cols,
                base == cost_bits(
                    self.wgrids(),
                    self.bgrids(),
                    inputs.grid(),
                    targets.grid(),
                    self.count - 1,
                ),
                l <= count - 1,
                g.wf(),
                g.count == count,
                g.same_arch(*self),
                g.weights@.len() == self.weights@.len(),
                g.biases@.len() == self.biases@.len(),
                g.activations@.len() == self.activations@.len(),
                forall|i: int| 0 <= i < self.activations@.len() ==> (
                #[trigger] g.activations@[i]).grid() == self.activations@[i].grid(),
                forall|i: int| 0 <= i < self.weights@.len() ==> (
                #[trigger] g.weights@[i]).same_shape(self.weights@[i]),
                forall|i: int| 0 <= i < self.biases@.len() ==> {
                    let m = #[trigger] g.biases@[i];
                    &&& m.same_shape(self.biases@[i])
                    &&& m.grid() == self.biases@[i].grid()
                },
                forall|p: int, r: int, c: int|
                    #![trigger g.weights@[p].entry(r, c)]
                    #![trigger fd_weight(*self, *inputs, *targets, eps, p, r, c)]
                    0 <= p < l && 0 <= r < self.weights@[p].rows && 0 <= c
                        < self.weights@[p].cols ==> g.weights@[p].entry(r, c) == fd_weight(
                        *self,
                        *inputs,
                        *targets,
                        eps,
                        p,
                        r,
                        c,
                    ),
            decreases count - 1 - l,
        {
            let rows = self.weights[l].rows;
            let cols = self.weights[l].cols;
            let mut gl = Matrix::zeros(rows, cols);
            let mut r: usize = 0;
            while r < rows
                invariant
                    self.wf(),
                    inputs.wf(),
                    targets.wf(),
                    self.count == count,
                    inputs.rows == targets.rows,
                    inputs.cols == self.activations@[0].cols,
                    targets.cols == self.activations@[self.count - 1].cols,
                    stack_wf(self.weights@, self.biases@, inputs.cols as int),
                    targets.cols == self.weights@[self.weights@.len() - 1].cols,
                    base == cost_bits(
                        self.wgrids(),
                        self.bgrids(),
                        inputs.grid(),
                        targets.grid(),
                        self.count - 1,
                    ),
                    l < count - 1,
                    rows == self.weights@[l as int].rows,
                    cols == self.weights@[l as int].cols,
                    r <= rows,
                    gl.wf(),
                    gl.rows == rows,
                    gl.cols == cols,
                    forall|p: int, q: int|
                        #![trigger gl.entry(p, q)]
                        #![trigger fd_weight(*self, *inputs, *targets, eps, l as int, p, q)]
                        0 <= p < r && 0 <= q < cols ==> gl.entry(p, q) == fd_weight(
                            *self,
                            *inputs,
                            *targets,
                            eps,
                            l as int,
                            p,
                            q,
                        ),
                decreases rows - r,
            {
                let mut c: usize = 0;
                while c < cols
                    invariant
                        self.wf(),
                        inputs.wf(),
                        targets.wf(),
                        self.count == count,
                        inputs.rows == targets.rows,
                        inputs.cols == self.activations@[0].cols,
                        targets.cols == self.activations@[self.count - 1].cols,
                        stack_wf(self.weights@, self.biases@, inputs.cols as int),
                        targets.cols == self.weights@[self.weights@.len() - 1].cols,
                        base == cost_bits(
                            self.wgrids(),
                            self.bgrids(),
                            inputs.grid(),
                            targets.grid(),
                            self.count - 1,
                        ),
                        l < count - 1,
                        rows == self.weights@[l as int].rows,
                        cols == self.weights@[l as int].cols,
                        r < rows,
                        c <= cols,
                        gl.wf(),
                        gl.rows == rows,
                        gl.cols == cols,
                        forall|p: int, q: int|
                            #![trigger gl.entry(p, q)]
                            #![trigger fd_weight(*self, *inputs, *targets, eps, l as int, p, q)]
                            0 <= p < r && 0 <= q < cols ==> gl.entry(p, q) == fd_weight(
                                *self,
                                *inputs,
                                *targets,
                                eps,
                                l as int,
                                p,
                                q,
                            ),
                        forall|q: int|
                            #![trigger gl.entry(r as int, q)]
                            #![trigger fd_weight(*self, *inputs, *targets, eps, l as int, r as int, q)]
                            0 <= q < c ==> gl.entry(r as int, q) == fd_weight(
                                *self,
                                *inputs,
                                *targets,
                                eps,
                                l as int,
                                r as int,
                                q,
                            ),
                    decreases cols - c,
                {
                    let mut wp = dup_stack(&self.weights);
                    let mut pl = self.weights[l].duplicate();
                    let v = add_words(pl.at(r, c), eps);
                    pl.put(r, c, v);
                    wp[l] = pl;
                    proof {
                        assert(grids_of(wp@) =~~= nudge(
                            self.wgrids(),
                            l as int,
                            r as int,
                            c as int,
                            eps,
                        ));
                        assert(stack_wf(wp@, self.biases@, inputs.cols as int));
                    }
                    let c1 = cost_core(&wp, &self.biases, inputs, targets);
                    gl.put(r, c, div_words(sub_words(c1, base), eps));
                    c = c + 1;
                }
                r = r + 1;
            }
            g.weights[l] = gl;
            l = l + 1;
        }
        let mut l: usize = 0;
        while l < count - 1
            invariant
                self.wf(),
                inputs.wf(),
                targets.wf(),
                self.count == count,
                inputs.rows == targets.rows,
                inputs.cols == self.activations@[0].cols,
                targets.cols == self.activations@[self.count - 1].cols,
                stack_wf(self.weights@, self.biases@, inputs.cols as int),
                targets.cols == self.weights@[self.weights@.len() - 1].cols,
                base == cost_bits(
                    self.wgrids(),
                    self.bgrids(),
                    inputs.grid(),
                    targets.grid(),
                    self.count - 1,
                ),
                l <= count - 1,
                g.wf(),
                g.count == count,
                g.same_arch(*self),
                g.weights@.len() == self.weights@.len(),
                g.biases@.len() == self.biases@.len(),
                g.activations@.len() == self.activations@.len(),
                forall|i: int| 0 <= i < self.activations@.len() ==> (
                #[trigger] g.activations@[i]).grid() == self.activations@[i].grid(),
                forall|i: int| 0 <= i < self.weights@.len() ==> (
                #[trigger] g.weights@[i]).same_shape(self.weights@[i]),
                forall|i: int| 0 <= i < self.biases@.len() ==> (
                #[trigger] g.biases@[i]).same_shape(self.biases@[i]),
                forall|p: int, r: int, c: int|
                    #![trigger g.weights@[p].entry(r, c)]
                    #![trigger fd_weight(*self, *inputs, *targets, eps, p, r, c)]
                    0 <= p < self.weights@.len() && 0 <= r < self.weights@[p].rows && 0 <= c
                        < self.weights@[p].cols ==> g.weights@[p].entry(r, c) == fd_weight(
                        *self,
                        *inputs,
                        *targets,
                        eps,
                        p,
                        r,
                        c,
                    ),
                forall|p: int, r: int, c: int|
                    #![trigger g.biases@[p].entry(r, c)]
                    #![trigger fd_bias(*self, *inputs, *targets, eps, p, r, c)]
                    0 <= p < l && 0 <= r < self.biases@[p].rows && 0 <= c < self.biases@[p].cols
                        ==> g.biases@[p].entry(r, c) == fd_bias(
                        *self,
                        *inputs,
                        *targets,
                        eps,
                        p,
                        r,
                        c,
                    ),
            decreases count - 1 - l,
        {
            let rows = self.biases[l].rows;
            let cols = self.biases[l].cols;
            let mut gl = Matrix::zeros(rows, cols);
            let mut r: usize = 0;
            while r < rows
                invariant
                    self.wf(),
                    inputs.wf(),
                    targets.wf(),
                    self.count == count,
                    inputs.rows == targets.rows,
                    inputs.cols == self.activations@[0].cols,
                    targets.cols == self.activations@[self.count - 1].cols,
                    stack_wf(self.weights@, self.biases@, inputs.cols as int),
                    targets.cols == self.weights@[self.weights@.len() - 1].cols,
                    base == cost_bits(
                        self.wgrids(),
                        self.bgrids(),
                        inputs.grid(),
                        targets.grid(),
                        self.count - 1,
                    ),
                    l < count - 1,
                    rows == self.biases@[l as int].rows,
                    cols == self.biases@[l as int].cols,
                    r <= rows,
                    gl.wf(),
                    gl.rows == rows,
                    gl.cols == cols,
                    forall|p: int, q: int|
                        #![trigger gl.entry(p, q)]
                        #![trigger fd_bias(*self, *inputs, *targets, eps, l as int, p, q)]
                        0 <= p < r && 0 <= q < cols ==> gl.entry(p, q) == fd_bias(
                            *self,
                            *inputs,
                            *targets,
                            eps,
                            l as int,
                            p,
                            q,
                        ),
                decreases rows - r,
            {
                let mut c: usize = 0;
                while c < cols
                    invariant
                        self.wf(),
                        inputs.wf(),
                        targets.wf(),
                        self.count == count,
                        inputs.rows == targets.rows,
                        inputs.cols == self.activations@[0].cols,
                        targets.cols == self.activations@[self.count - 1].cols,
                        stack_wf(self.weights@, self.biases@, inputs.cols as int),
                        targets.cols == self.weights@[self.weights@.len() - 1].cols,
                        base == cost_bits(
                            self.wgrids(),
                            self.bgrids(),
                            inputs.grid(),
                            targets.grid(),
                            self.count - 1,
                        ),
                        l < count - 1,
                        rows == self.biases@[l as int].rows,
                        cols == self.biases@[l as int].cols,
                        r < rows,
                        c <= cols,
                        gl.wf(),
                        gl.rows == rows,
                        gl.cols == cols,
                        forall|p: int, q: int|
                            #![trigger gl.entry(p, q)]
                            #![trigger fd_bias(*self, *inputs, *targets, eps, l as int, p, q)]
                            0 <= p < r && 0 <= q < cols ==> gl.entry(p, q) == fd_bias(
                                *self,
                                *inputs,
                                *targets,
                                eps,
                                l as int,
                                p,
                                q,
                            ),
                        forall|q: int|
                            #![trigger gl.entry(r as int, q)]
                            #![trigger fd_bias(*self, *inputs, *targets, eps, l as int, r as int, q)]
                            0 <= q < c ==> gl.entry(r as int, q) == fd_bias(
                                *self,
                                *inputs,
                                *targets,
                                eps,
                                l as int,
                                r as int,
                                q,
                            ),
                    decreases cols - c,
                {
                    let mut bp = dup_stack(&self.biases);
                    let mut pl = self.biases[l].duplicate();
                    let v = add_words(pl.at(r, c), eps);
                    pl.put(r, c, v);
                    bp[l] = pl;
                    proof {
                        assert(grids_of(bp@) =~~= nudge(
                            self.bgrids(),
                            l as int,
                            r as int,
                            c as int,
                            eps,
                        ));
                        assert(stack_wf(self.weights@, bp@, inputs.cols as int));
                    }
                    let c1 = cost_core(&self.weights, &bp, inputs, targets);
                    gl.put(r, c, div_words(sub_words(c1, base), eps));
                    c = c + 1;
                }
                r = r + 1;
            }
            g.biases[l] = gl;
            l = l + 1;
        }
        Ok(g)
    }

    /// Steps every weight and bias entry against the matching entry of
    /// `gradient`, scaled by `rate`; the activations are untouched. Fails
    /// with `ShapeError` exactly when the two architectures differ,
    /// leaving the parameters unchanged.
    pub fn learn(&mut self, gradient: &NeuralNetwork, rate: u64) -> (res: Result<(), Error>)
        requires
            old(self).wf(),
            gradient.wf(),
        ensures
            final(self).wf(),
            final(self).count == old(self).count,
            final(self).activations@ == old(self).activations@,
            final(self).weights@.len() == old(self).weights@.len(),
            final(self).biases@.len() == old(self).biases@.len(),
            match res {
                Ok(()) => {
                    &&& old(self).same_arch(*gradient)
                    &&& (forall|l: int|
                        #![trigger final(self).weights@[l]]
                        #![trigger old(self).weights@[l]]
                        0 <= l < old(self).weights@.len()
                            ==> final(self).weights@[l].same_shape(old(self).weights@[l])
                            && final(self).weights@[l].grid() == mat_descend_grid(
                            old(self).weights@[l].grid(),
                            gradient.weights@[l].grid(),
                            rate,
                        ))
                    &&& (forall|l: int|
                        #![trigger final(self).biases@[l]]
                        #![trigger old(self).biases@[l]]
                        0 <= l < old(self).biases@.len()
                            ==> final(self).biases@[l].same_shape(old(self).biases@[l])
                            && final(self).biases@[l].grid() == mat_descend_grid(
                            old(self).biases@[l].grid(),
                            gradient.biases@[l].grid(),
                            rate,
                        ))
                },
                Err(e) => {
                    &&& e == Error::ShapeError
                    &&& !old(self).same_arch(*gradient)
                    &&& final(self).weights@ == old(self).weights@
                    &&& final(self).biases@ == old(self).biases@
                },
            },
    {
        if self.count != gradient.count {
            return Err(Error::ShapeError);
        }
        let count = self.count;
        let mut i: usize = 0;
        while i < count
            invariant
                self.wf(),
                gradient.wf(),
                self.count == count,
                gradient.count == count,
                i <= count,
                self == old(self),
                forall|p: int| 0 <= p < i ==> (#[trigger] self.activations@[p]).cols
                    == gradient.activations@[p].cols,
            decreases count - i,
        {
            if self.activations[i].cols != gradient.activations[i].cols {
                return Err(Error::ShapeError);
            }
            i = i + 1;
        }
        let ghost w0 = self.weights@;
        let ghost b0 = self.biases@;
        let mut l: usize = 0;
        while l < count - 1
            invariant
                self.wf(),
                gradient.wf(),
                old(self).wf(),
                self.count == count,
                gradient.count == count,
                old(self).same_arch(*gradient),
                self.activations@ == old(self).activations@,
                w0 == old(self).weights@,
                b0 == old(self).biases@,
                self.weights@.len() == w0.len(),
                self.biases@.len() == b0.len(),
                l <= count - 1,
                forall|p: int|
                    #![trigger self.weights@[p]]
                    #![trigger w0[p]]
                    0 <= p < l ==> self.weights@[p].same_shape(w0[p]) && self.weights@[p].grid()
                        == mat_descend_grid(w0[p].grid(), gradient.weights@[p].grid(), rate),
                forall|p: int|
                    #![trigger self.biases@[p]]
                    #![trigger b0[p]]
                    0 <= p < l ==> self.biases@[p].same_shape(b0[p]) && self.biases@[p].grid()
                        == mat_descend_grid(b0[p].grid(), gradient.biases@[p].grid(), rate),
                forall|p: int|
                    #![trigger self.weights@[p]]
                    #![trigger w0[p]]
                    l <= p < w0.len() ==> self.weights@[p] == w0[p],
                forall|p: int|
                    #![trigger self.biases@[p]]
                    #![trigger b0[p]]
                    l <= p < b0.len() ==> self.biases@[p] == b0[p],
            decreases count - 1 - l,
        {
            let mut wl = self.weights[l].duplicate();
            wl.descend_core(&gradient.weights[l], rate);
            self.weights[l] = wl;
            let mut bl = self.biases[l].duplicate();
            bl.descend_core(&gradient.biases[l], rate);
            self.biases[l] = bl;
            l = l + 1;
        }
        Ok(())
    }
}

} // verus!
