use vstd::prelude::*;

use crate::Error;
use crate::scalar::ZERO_WORD;
use crate::scalar::add_bits;
use crate::scalar::add_words;
use crate::scalar::from_draw;
use crate::scalar::mul_bits;
use crate::scalar::mul_words;
use crate::scalar::random_word_between;
use crate::scalar::sigmoid_bits;
use crate::scalar::sigmoid_word;
use crate::scalar::sub_bits;
use crate::scalar::sub_words;

verus! {

/// A dense two-dimensional grid of scalar words. Every row holds exactly
/// `cols` entries and the grid holds exactly `rows` rows; the shape never
/// changes after construction.
pub struct Matrix {
    pub rows: usize,
    pub cols: usize,
    pub data: Vec<Vec<u64>>,
}

/// The row-major accumulation of the products `row[k] * b[k][j]` over the
/// first `k` positions, started from the zero word: the entry at column `j`
/// of a matrix product, after `k` of its summands.
pub open spec fn dot_bits(row: Seq<u64>, b: Seq<Seq<u64>>, j: int, k: int) -> u64
    decreases k,
{
    if k <= 0 {
        ZERO_WORD
    } else {
        add_bits(dot_bits(row, b, j, k - 1), mul_bits(row[k - 1], b[k - 1][j]))
    }
}

/// The grid of the matrix product of `a` and `b`, where `b` has `bc`
/// columns: entry `(i, j)` accumulates `a[i][k] * b[k][j]` in ascending `k`.
pub open spec fn mat_mul_grid(a: Seq<Seq<u64>>, b: Seq<Seq<u64>>, bc: nat) -> Seq<Seq<u64>> {
    Seq::new(a.len(), |i: int| Seq::new(bc, |j: int| dot_bits(a[i], b, j, a[i].len() as int)))
}

/// The grid of the elementwise sum of `a` and `b`.
pub open spec fn mat_add_grid(a: Seq<Seq<u64>>, b: Seq<Seq<u64>>) -> Seq<Seq<u64>> {
    Seq::new(a.len(), |i: int| Seq::new(a[i].len(), |j: int| add_bits(a[i][j], b[i][j])))
}

/// The grid of the elementwise difference of `a` and `b`.
pub open spec fn mat_sub_grid(a: Seq<Seq<u64>>, b: Seq<Seq<u64>>) -> Seq<Seq<u64>> {
    Seq::new(a.len(), |i: int| Seq::new(a[i].len(), |j: int| sub_bits(a[i][j], b[i][j])))
}

/// The grid of `a` after one gradient-descent step against `g` at the
/// given rate: entry `(i, j)` becomes `a[i][j] - rate * g[i][j]`.
pub open spec fn mat_descend_grid(a: Seq<Seq<u64>>, g: Seq<Seq<u64>>, rate: u64) -> Seq<Seq<u64>> {
    Seq::new(a.len(), |i: int| Seq::new(a[i].len(), |j: int| sub_bits(a[i][j], mul_bits(rate, g[i][j]))))
}

/// The grid of `a` with the logistic sigmoid applied to every entry.
pub open spec fn mat_sigmoid_grid(a: Seq<Seq<u64>>) -> Seq<Seq<u64>> {
    Seq::new(a.len(), |i: int| Seq::new(a[i].len(), |j: int| sigmoid_bits(a[i][j])))
}

/// Builds a vector of `cols` copies of the word `w`.
fn const_row(cols: usize, w: u64) -> (r: Vec<u64>)
    ensures
        r@.len() == cols,
        forall|q: int| 0 <= q < cols ==> r@[q] == w,
{
    let mut r: Vec<u64> = Vec::new();
    let mut q: usize = 0;
    while q < cols
        invariant
            q <= cols,
            r@.len() == q,
            forall|p: int| 0 <= p < q ==> r@[p] == w,
        decreases cols - q,
    {
        r.push(w);
        q = q + 1;
    }
    r
}

impl Matrix {
    /// The mathematical content of the matrix: the sequence of its rows,
    /// each a sequence of scalar words.
    pub open spec fn grid(self) -> Seq<Seq<u64>> {
        Seq::new(self.data@.len(), |i: int| self.data@[i]@)
    }

    /// The word at row `i`, column `j`.
    pub open spec fn entry(self, i: int, j: int) -> u64 {
        self.grid()[i][j]
    }

    /// The shape invariant: the grid holds `rows` rows of `cols` words each.
    pub open spec fn wf(self) -> bool {
        &&& self.grid().len() == self.rows
        &&& forall|i: int| 0 <= i < self.rows ==> (#[trigger] self.grid()[i]).len() == self.cols
    }

    /// Two matrices agree in shape.
    pub open spec fn same_shape(self, other: Matrix) -> bool {
        self.rows == other.rows && self.cols == other.cols
    }

    /// Every entry is the zero word.
    pub open spec fn all_zero(self) -> bool {
        forall|i: int, j: int| 0 <= i < self.rows && 0 <= j < self.cols ==> #[trigger] self.entry(
            i,
            j,
        ) == ZERO_WORD
    }

    /// Every entry lies in the image of the uniform draw between `low`
    /// and `high`.
    pub open spec fn all_from_draw(self, low: u64, high: u64) -> bool {
        forall|i: int, j: int| 0 <= i < self.rows && 0 <= j < self.cols ==> from_draw(
            #[trigger] self.entry(i, j),
            low,
            high,
        )
    }

    /// Builds the all-zero matrix of the given shape.
    pub fn zeros(rows: usize, cols: usize) -> (m: Matrix)
        ensures
            m.wf(),
            m.rows == rows,
            m.cols == cols,
            m.all_zero(),
    {
        let mut data: Vec<Vec<u64>> = Vec::new();
        let mut i: usize = 0;
        while i < rows
            invariant
                i <= rows,
                data@.len() == i,
                forall|p: int| 0 <= p < i ==> (#[trigger] data@[p])@.len() == cols,
                forall|p: int, q: int| 0 <= p < i && 0 <= q < cols ==> (#[trigger] data@[p]@[q])
                    == ZERO_WORD,
            decreases rows - i,
        {
            data.push(const_row(cols, ZERO_WORD));
            i = i + 1;
        }
        Matrix { rows, cols, data }
    }

    /// Builds a matrix of the given shape whose every entry is a fresh
    /// uniform draw between the values behind `low` and `high`. Which
    /// words come back is not promised, but every entry lies in the image
    /// of the draw.
    pub fn random(rows: usize, cols: usize, low: u64, high: u64) -> (m: Matrix)
        ensures
            m.wf(),
            m.rows == rows,
            m.cols == cols,
            m.all_from_draw(low, high),
    {
        let mut data: Vec<Vec<u64>> = Vec::new();
        let mut i: usize = 0;
        while i < rows
            invariant
                i <= rows,
                data@.len() == i,
                forall|p: int| 0 <= p < i ==> (#[trigger] data@[p])@.len() == cols,
                forall|p: int, q: int| 0 <= p < i && 0 <= q < cols ==> from_draw(
                    #[trigger] data@[p]@[q],
                    low,
                    high,
                ),
            decreases rows - i,
        {
            let mut row: Vec<u64> = Vec::new();
            let mut q: usize = 0;
            while q < cols
                invariant
                    q <= cols,
                    row@.len() == q,
                    forall|p: int| 0 <= p < q ==> from_draw(#[trigger] row@[p], low, high),
                decreases cols - q,
            {
                row.push(random_word_between(low, high));
                q = q + 1;
            }
            data.push(row);
            i = i + 1;
        }
        Matrix { rows, cols, data }
    }

    /// Overwrites every entry with a fresh uniform draw between the values
    /// behind `low` and `high`; the shape is kept. Which words come back
    /// is not promised, but every entry lies in the image of the draw.
    pub fn rand(&mut self, low: u64, high: u64)
        requires
            old(self).wf(),
        ensures
            final(self).wf(),
            final(self).rows == old(self).rows,
            final(self).cols == old(self).cols,
            final(self).all_from_draw(low, high),
    {
        let fresh = Matrix::random(self.rows, self.cols, low, high);
        self.data = fresh.data;
        proof {
            assert forall|i: int, j: int|
                0 <= i < self.rows && 0 <= j < self.cols implies from_draw(
                #[trigger] self.entry(i, j),
                low,
                high,
            ) by {
                assert(self.entry(i, j) == fresh.entry(i, j));
            }
        }
    }

    /// Builds a matrix from literal rows. Fails with `ShapeError` when the
    /// rows are empty or of unequal length; otherwise the grid is exactly
    /// the given data.
    pub fn from(data: Vec<Vec<u64>>) -> (r: Result<Matrix, Error>)
        ensures
            match r {
                Ok(m) => {
                    &&& data@.len() > 0
                    &&& forall|i: int| 0 <= i < data@.len() ==> (#[trigger] data@[i])@.len()
                        == data@[0]@.len()
                    &&& m.wf()
                    &&& m.rows == data@.len()
                    &&& m.cols == data@[0]@.len()
                    &&& forall|i: int| 0 <= i < data@.len() ==> (#[trigger] m.grid()[i]) == data@[i]@
                },
                Err(e) => {
                    &&& e == Error::ShapeError
                    &&& (data@.len() == 0 || exists|i: int| 0 <= i < data@.len()
                        && (#[trigger] data@[i])@.len() != data@[0]@.len())
                },
            },
    {
        if data.len() == 0 {
            return Err(Error::ShapeError);
        }
        let cols = data[0].len();
        let mut i: usize = 1;
        while i < data.len()
            invariant
                1 <= i <= data@.len(),
                cols == data@[0]@.len(),
                forall|p: int| 0 <= p < i ==> (#[trigger] data@[p])@.len() == cols,
            decreases data@.len() - i,
        {
            if data[i].len() != cols {
                return Err(Error::ShapeError);
            }
            i = i + 1;
        }
        let rows = data.len();
        Ok(Matrix { rows, cols, data })
    }

    /// Reads the word at `(r, c)` without a bounds test.
    pub(crate) fn at(&self, r: usize, c: usize) -> (w: u64)
        requires
            self.wf(),
            r < self.rows,
            c < self.cols,
        ensures
            w == self.entry(r as int, c as int),
    {
        proof {
            assert(self.grid()[r as int] == self.data@[r as int]@);
        }
        self.data[r][c]
    }

    /// Writes the word at `(r, c)` without a bounds test.
    pub(crate) fn put(&mut self, r: usize, c: usize, w: u64)
        requires
            old(self).wf(),
            r < old(self).rows,
            c < old(self).cols,
        ensures
            final(self).wf(),
            final(self).rows == old(self).rows,
            final(self).cols == old(self).cols,
            final(self).grid() == old(self).grid().update(
                r as int,
                old(self).grid()[r as int].update(c as int, w),
            ),
    {
        proof {
            assert(old(self).grid()[r as int] == old(self).data@[r as int]@);
        }
        self.data[r][c] = w;
        proof {
            assert(self.grid() =~~= old(self).grid().update(
                r as int,
                old(self).grid()[r as int].update(c as int, w),
            ));
        }
    }

    /// Reads the word at `(r, c)`; fails with `IndexError` exactly when the
    /// position lies outside the shape.
    pub fn get_value(&self, r: usize, c: usize) -> (res: Result<u64, Error>)
        requires
            self.wf(),
        ensures
            match res {
                Ok(w) => r < self.rows && c < self.cols && w == self.entry(r as int, c as int),
                Err(e) => e == Error::IndexError && (r >= self.rows || c >= self.cols),
            },
    {
        if r < self.rows && c < self.cols {
            Ok(self.at(r, c))
        } else {
            Err(Error::IndexError)
        }
    }

    /// Overwrites the word at `(r, c)`; fails with `IndexError` exactly when
    /// the position lies outside the shape, leaving the matrix unchanged.
    pub fn set_value(&mut self, r: usize, c: usize, w: u64) -> (res: Result<(), Error>)
        requires
            old(self).wf(),
        ensures
            final(self).wf(),
            final(self).rows == old(self).rows,
            final(self).cols == old(self).cols,
            match res {
                Ok(()) => r < old(self).rows && c < old(self).cols && final(self).grid()
                    == old(self).grid().update(
                    r as int,
                    old(self).grid()[r as int].update(c as int, w),
                ),
                Err(e) => {
                    &&& e == Error::IndexError
                    &&& (r >= old(self).rows || c >= old(self).cols)
                    &&& final(self).grid() == old(self).grid()
                },
            },
    {
        if r < self.rows && c < self.cols {
            self.put(r, c, w);
            Ok(())
        } else {
            Err(Error::IndexError)
        }
    }

    /// Adds `delta` to the word at `(r, c)`; fails with `IndexError` exactly
    /// when the position lies outside the shape, leaving the matrix
    /// unchanged.
    pub fn increase_value(&mut self, r: usize, c: usize, delta: u64) -> (res: Result<(), Error>)
        requires
            old(self).wf(),
        ensures
            final(self).wf(),
            final(self).rows == old(self).rows,
            final(self).cols == old(self).cols,
            match res {
                Ok(()) => r < old(self).rows && c < old(self).cols && final(self).grid()
                    == old(self).grid().update(
                    r as int,
                    old(self).grid()[r as int].update(
                        c as int,
                        add_bits(old(self).entry(r as int, c as int), delta),
                    ),
                ),
                Err(e) => {
                    &&& e == Error::IndexError
                    &&& (r >= old(self).rows || c >= old(self).cols)
                    &&& final(self).grid() == old(self).grid()
                },
            },
    {
        if r < self.rows && c < self.cols {
            let w = add_words(self.at(r, c), delta);
            self.put(r, c, w);
            Ok(())
        } else {
            Err(Error::IndexError)
        }
    }

    /// Subtracts `delta` from the word at `(r, c)`; fails with `IndexError`
    /// exactly when the position lies outside the shape, leaving the matrix
    /// unchanged.
    pub fn decrease_value(&mut self, r: usize, c: usize, delta: u64) -> (res: Result<(), Error>)
        requires
            old(self).wf(),
        ensures
            final(self).wf(),
            final(self).rows == old(self).rows,
            final(self).cols == old(self).cols,
            match res {
                Ok(()) => r < old(self).rows && c < old(self).cols && final(self).grid()
                    == old(self).grid().update(
                    r as int,
                    old(self).grid()[r as int].update(
                        c as int,
                        sub_bits(old(self).entry(r as int, c as int), delta),
                    ),
                ),
                Err(e) => {
                    &&& e == Error::IndexError
                    &&& (r >= old(self).rows || c >= old(self).cols)
                    &&& final(self).grid() == old(self).grid()
                },
            },
    {
        if r < self.rows && c < self.cols {
            let w = sub_words(self.at(r, c), delta);
            self.put(r, c, w);
            Ok(())
        } else {
            Err(Error::IndexError)
        }
    }

    /// Copies row `r` into a fresh one-row matrix.
    pub(crate) fn row_core(&self, r: usize) -> (m: Matrix)
        requires
            self.wf(),
            r < self.rows,
        ensures
            m.wf(),
            m.rows == 1,
            m.cols == self.cols,
            m.grid()[0] == self.grid()[r as int],
    {
        let mut row: Vec<u64> = Vec::new();
        let mut q: usize = 0;
        while q < self.cols
            invariant
                self.wf(),
                r < self.rows,
                q <= self.cols,
                row@.len() == q,
                forall|p: int| 0 <= p < q ==> row@[p] == self.grid()[r as int][p],
            decreases self.cols - q,
        {
            row.push(self.at(r, q));
            q = q + 1;
        }
        proof {
            assert(row@ =~= self.grid()[r as int]);
        }
        let mut data: Vec<Vec<u64>> = Vec::new();
        data.push(row);
        Matrix { rows: 1, cols: self.cols, data }
    }

    /// Copies row `r` into a fresh one-row matrix; fails with `IndexError`
    /// exactly when `r` lies outside the shape.
    pub fn row(&self, r: usize) -> (res: Result<Matrix, Error>)
        requires
            self.wf(),
        ensures
            match res {
                Ok(m) => {
                    &&& r < self.rows
                    &&& m.wf()
                    &&& m.rows == 1
                    &&& m.cols == self.cols
                    &&& m.grid()[0] == self.grid()[r as int]
                },
                Err(e) => e == Error::IndexError && r >= self.rows,
            },
    {
        if r >= self.rows {
            return Err(Error::IndexError);
        }
        Ok(self.row_core(r))
    }

    /// Applies the logistic sigmoid to every entry in place; the shape is
    /// kept.
    pub fn apply_sigmoid(&mut self)
        requires
            old(self).wf(),
        ensures
            final(self).wf(),
            final(self).rows == old(self).rows,
            final(self).cols == old(self).cols,
            final(self).grid() == mat_sigmoid_grid(old(self).grid()),
    {
        let rows = self.rows;
        let cols = self.cols;
        let ghost g0 = self.grid();
        let mut i: usize = 0;
        while i < rows
            invariant
                i <= rows,
                self.wf(),
                self.rows == rows,
                self.cols == cols,
                g0.len() == rows,
                forall|p: int| 0 <= p < rows ==> (#[trigger] g0[p]).len() == cols,
                forall|p: int, q: int|
                    #![trigger self.entry(p, q)]
                    #![trigger g0[p][q]]
                    0 <= p < i && 0 <= q < cols ==> self.entry(p, q) == sigmoid_bits(g0[p][q]),
                forall|p: int, q: int|
                    #![trigger self.entry(p, q)]
                    #![trigger g0[p][q]]
                    i <= p < rows && 0 <= q < cols ==> self.entry(p, q) == g0[p][q],
            decreases rows - i,
        {
            let mut j: usize = 0;
            while j < cols
                invariant
                    i < rows,
                    j <= cols,
                    self.wf(),
                    self.rows == rows,
                    self.cols == cols,
                    g0.len() == rows,
                    forall|p: int| 0 <= p < rows ==> (#[trigger] g0[p]).len() == cols,
                    forall|p: int, q: int|
                        #![trigger self.entry(p, q)]
                        #![trigger g0[p][q]]
                        0 <= p < i && 0 <= q < cols ==> self.entry(p, q) == sigmoid_bits(g0[p][q]),
                    forall|q: int|
                        #![trigger self.entry(i as int, q)]
                        #![trigger g0[i as int][q]]
                        0 <= q < j ==> self.entry(i as int, q) == sigmoid_bits(g0[i as int][q]),
                    forall|q: int|
                        #![trigger self.entry(i as int, q)]
                        #![trigger g0[i as int][q]]
                        j <= q < cols ==> self.entry(i as int, q) == g0[i as int][q],
                    forall|p: int, q: int|
                        #![trigger self.entry(p, q)]
                        #![trigger g0[p][q]]
                        i < p < rows && 0 <= q < cols ==> self.entry(p, q) == g0[p][q],
                decreases cols - j,
            {
                let w = sigmoid_word(self.at(i, j));
                self.put(i, j, w);
                j = j + 1;
            }
            i = i + 1;
        }
        proof {
            assert(self.grid() =~~= mat_sigmoid_grid(g0));
        }
    }

    /// The elementwise sum of two matrices of one shape.
    pub(crate) fn add_core(&self, other: &Matrix) -> (m: Matrix)
        requires
            self.wf(),
            other.wf(),
            self.same_shape(*other),
        ensures
            m.wf(),
            m.rows == self.rows,
            m.cols == self.cols,
            m.grid() == mat_add_grid(self.grid(), other.grid()),
    {
        let mut data: Vec<Vec<u64>> = Vec::new();
        let mut i: usize = 0;
        while i < self.rows
            invariant
                i <= self.rows,
                data@.len() == i,
                self.wf(),
                other.wf(),
                self.same_shape(*other),
                forall|p: int| 0 <= p < i ==> (#[trigger] data@[p])@.len() == self.cols,
                forall|p: int, q: int| 0 <= p < i && 0 <= q < self.cols ==> (
                #[trigger] data@[p]@[q]) == add_bits(self.entry(p, q), other.entry(p, q)),
            decreases self.rows - i,
        {
            let mut row: Vec<u64> = Vec::new();
            let mut j: usize = 0;
            while j < self.cols
                invariant
                    i < self.rows,
                    j <= self.cols,
                    row@.len() == j,
                    self.wf(),
                    other.wf(),
                    self.same_shape(*other),
                    forall|q: int| 0 <= q < j ==> row@[q] == add_bits(
                        self.entry(i as int, q),
                        other.entry(i as int, q),
                    ),
                decreases self.cols - j,
            {
                row.push(add_words(self.at(i, j), other.at(i, j)));
                j = j + 1;
            }
            data.push(row);
            i = i + 1;
        }
        let m = Matrix { rows: self.rows, cols: self.cols, data };
        proof {
            assert(m.grid() =~~= mat_add_grid(self.grid(), other.grid()));
        }
        m
    }

    /// The elementwise sum; fails with `ShapeError` exactly when the shapes
    /// differ.
    pub fn add(&self, other: &Matrix) -> (res: Result<Matrix, Error>)
        requires
            self.wf(),
            other.wf(),
        ensures
            match res {
                Ok(m) => {
                    &&& self.same_shape(*other)
                    &&& m.wf()
                    &&& m.rows == self.rows
                    &&& m.cols == self.cols
                    &&& m.grid() == mat_add_grid(self.grid(), other.grid())
                },
                Err(e) => e == Error::ShapeError && !self.same_shape(*other),
            },
    {
        if self.rows != other.rows || self.cols != other.cols {
            return Err(Error::ShapeError);
        }
        Ok(self.add_core(other))
    }

    /// The elementwise difference of two matrices of one shape.
    pub(crate) fn sub_core(&self, other: &Matrix) -> (m: Matrix)
        requires
            self.wf(),
            other.wf(),
            self.same_shape(*other),
        ensures
            m.wf(),
            m.rows == self.rows,
            m.cols == self.cols,
            m.grid() == mat_sub_grid(self.grid(), other.grid()),
    {
        let mut data: Vec<Vec<u64>> = Vec::new();
        let mut i: usize = 0;
        while i < self.rows
            invariant
                i <= self.rows,
                data@.len() == i,
                self.wf(),
                other.wf(),
                self.same_shape(*other),
                forall|p: int| 0 <= p < i ==> (#[trigger] data@[p])@.len() == self.cols,
                forall|p: int, q: int| 0 <= p < i && 0 <= q < self.cols ==> (
                #[trigger] data@[p]@[q]) == sub_bits(self.entry(p, q), other.entry(p, q)),
            decreases self.rows - i,
        {
            let mut row: Vec<u64> = Vec::new();
            let mut j: usize = 0;
            while j < self.cols
                invariant
                    i < self.rows,
                    j <= self.cols,
                    row@.len() == j,
                    self.wf(),
                    other.wf(),
                    self.same_shape(*other),
                    forall|q: int| 0 <= q < j ==> row@[q] == sub_bits(
                        self.entry(i as int, q),
                        other.entry(i as int, q),
                    ),
                decreases self.cols - j,
            {
                row.push(sub_words(self.at(i, j), other.at(i, j)));
                j = j + 1;
            }
            data.push(row);
            i = i + 1;
        }
        let m = Matrix { rows: self.rows, cols: self.cols, data };
        proof {
            assert(m.grid() =~~= mat_sub_grid(self.grid(), other.grid()));
        }
        m
    }

    /// The elementwise difference; fails with `ShapeError` exactly when the
    /// shapes differ.
    pub fn sub(&self, other: &Matrix) -> (res: Result<Matrix, Error>)
        requires
            self.wf(),
            other.wf(),
        ensures
            match res {
                Ok(m) => {
                    &&& self.same_shape(*other)
                    &&& m.wf()
                    &&& m.rows == self.rows
                    &&& m.cols == self.cols
                    &&& m.grid() == mat_sub_grid(self.grid(), other.grid())
                },
                Err(e) => e == Error::ShapeError && !self.same_shape(*other),
            },
    {
        if self.rows != other.rows || self.cols != other.cols {
            return Err(Error::ShapeError);
        }
        Ok(self.sub_core(other))
    }

    /// The matrix product of compatible operands, accumulated row-major in
    /// ascending inner index.
    pub(crate) fn mul_core(&self, other: &Matrix) -> (m: Matrix)
        requires
            self.wf(),
            other.wf(),
            self.cols == other.rows,
        ensures
            m.wf(),
            m.rows == self.rows,
            m.cols == other.cols,
            m.grid() == mat_mul_grid(self.grid(), other.grid(), other.cols as nat),
    {
        let mut data: Vec<Vec<u64>> = Vec::new();
        let mut i: usize = 0;
        while i < self.rows
            invariant
                i <= self.rows,
                data@.len() == i,
                self.wf(),
                other.wf(),
                self.cols == other.rows,
                forall|p: int| 0 <= p < i ==> (#[trigger] data@[p])@.len() == other.cols,
                forall|p: int, q: int| 0 <= p < i && 0 <= q < other.cols ==> (
                #[trigger] data@[p]@[q]) == dot_bits(
                    self.grid()[p],
                    other.grid(),
                    q,
                    self.cols as int,
                ),
            decreases self.rows - i,
        {
            let mut row: Vec<u64> = Vec::new();
            let mut j: usize = 0;
            while j < other.cols
                invariant
                    i < self.rows,
                    j <= other.cols,
                    row@.len() == j,
                    self.wf(),
                    other.wf(),
                    self.cols == other.rows,
                    forall|q: int| 0 <= q < j ==> row@[q] == dot_bits(
                        self.grid()[i as int],
                        other.grid(),
                        q,
                        self.cols as int,
                    ),
                decreases other.cols - j,
            {
                let mut sum: u64 = ZERO_WORD;
                let mut k: usize = 0;
                while k < self.cols
                    invariant
                        i < self.rows,
                        j < other.cols,
                        k <= self.cols,
                        self.wf(),
                        other.wf(),
                        self.cols == other.rows,
                        sum == dot_bits(self.grid()[i as int], other.grid(), j as int, k as int),
                    decreases self.cols - k,
                {
                    sum = add_words(sum, mul_words(self.at(i, k), other.at(k, j)));
                    k = k + 1;
                }
                row.push(sum);
                j = j + 1;
            }
            data.push(row);
            i = i + 1;
        }
        let m = Matrix { rows: self.rows, cols: other.cols, data };
        proof {
            assert(m.grid() =~~= mat_mul_grid(self.grid(), other.grid(), other.cols as nat));
        }
        m
    }

    /// The matrix product, accumulated row-major in ascending inner index;
    /// fails with `ShapeError` exactly when the left column count differs
    /// from the right row count.
    pub fn mul(&self, other: &Matrix) -> (res: Result<Matrix, Error>)
        requires
            self.wf(),
            other.wf(),
        ensures
            match res {
                Ok(m) => {
                    &&& self.cols == other.rows
                    &&& m.wf()
                    &&& m.rows == self.rows
                    &&& m.cols == other.cols
                    &&& m.grid() == mat_mul_grid(self.grid(), other.grid(), other.cols as nat)
                },
                Err(e) => e == Error::ShapeError && self.cols != other.rows,
            },
    {
        if self.cols != other.rows {
            return Err(Error::ShapeError);
        }
        Ok(self.mul_core(other))
    }

    /// Takes one gradient-descent step in place: every entry moves against
    /// the matching entry of `g`, scaled by `rate`.
    pub(crate) fn descend_core(&mut self, g: &Matrix, rate: u64)
        requires
            old(self).wf(),
            g.wf(),
            old(self).same_shape(*g),
        ensures
            final(self).wf(),
            final(self).rows == old(self).rows,
            final(self).cols == old(self).cols,
            final(self).grid() == mat_descend_grid(old(self).grid(), g.grid(), rate),
    {
        let rows = self.rows;
        let cols = self.cols;
        let ghost g0 = self.grid();
        let mut i: usize = 0;
        while i < rows
            invariant
                i <= rows,
                self.wf(),
                self.rows == rows,
                self.cols == cols,
                g.wf(),
                g.rows == rows,
                g.cols == cols,
                g0.len() == rows,
                forall|p: int| 0 <= p < rows ==> (#[trigger] g0[p]).len() == cols,
                forall|p: int, q: int|
                    #![trigger self.entry(p, q)]
                    #![trigger g0[p][q]]
                    0 <= p < i && 0 <= q < cols ==> self.entry(p, q) == sub_bits(
                        g0[p][q],
                        mul_bits(rate, g.entry(p, q)),
                    ),
                forall|p: int, q: int|
                    #![trigger self.entry(p, q)]
                    #![trigger g0[p][q]]
                    i <= p < rows && 0 <= q < cols ==> self.entry(p, q) == g0[p][q],
            decreases rows - i,
        {
            let mut j: usize = 0;
            while j < cols
                invariant
                    i < rows,
                    j <= cols,
                    self.wf(),
                    self.rows == rows,
                    self.cols == cols,
                    g.wf(),
                    g.rows == rows,
                    g.cols == cols,
                    g0.len() == rows,
                    forall|p: int| 0 <= p < rows ==> (#[trigger] g0[p]).len() == cols,
                    forall|p: int, q: int|
                        #![trigger self.entry(p, q)]
                        #![trigger g0[p][q]]
                        0 <= p < i && 0 <= q < cols ==> self.entry(p, q) == sub_bits(
                            g0[p][q],
                            mul_bits(rate, g.entry(p, q)),
                        ),
                    forall|q: int|
                        #![trigger self.entry(i as int, q)]
                        #![trigger g0[i as int][q]]
                        0 <= q < j ==> self.entry(i as int, q) == sub_bits(
                            g0[i as int][q],
                            mul_bits(rate, g.entry(i as int, q)),
                        ),
                    forall|q: int|
                        #![trigger self.entry(i as int, q)]
                        #![trigger g0[i as int][q]]
                        j <= q < cols ==> self.entry(i as int, q) == g0[i as int][q],
                    forall|p: int, q: int|
                        #![trigger self.entry(p, q)]
                        #![trigger g0[p][q]]
                        i < p < rows && 0 <= q < cols ==> self.entry(p, q) == g0[p][q],
                decreases cols - j,
            {
                let w = sub_words(self.at(i, j), mul_words(rate, g.at(i, j)));
                self.put(i, j, w);
                j = j + 1;
            }
            i = i + 1;
        }
        proof {
            assert(self.grid() =~~= mat_descend_grid(g0, g.grid(), rate));
        }
    }

    /// Copies the matrix.
    pub fn duplicate(&self) -> (m: Matrix)
        requires
            self.wf(),
        ensures
            m.wf(),
            m.rows == self.rows,
            m.cols == self.cols,
            m.grid() == self.grid(),
    {
        let mut data: Vec<Vec<u64>> = Vec::new();
        let mut i: usize = 0;
        while i < self.rows
            invariant
                i <= self.rows,
                data@.len() == i,
                self.wf(),
                forall|p: int| 0 <= p < i ==> (#[trigger] data@[p])@ == self.grid()[p],
            decreases self.rows - i,
        {
            let mut row: Vec<u64> = Vec::new();
            let mut j: usize = 0;
            while j < self.cols
                invariant
                    i < self.rows,
                    j <= self.cols,
                    row@.len() == j,
                    self.wf(),
                    forall|q: int| 0 <= q < j ==> row@[q] == self.grid()[i as int][q],
                decreases self.cols - j,
            {
                row.push(self.at(i, j));
                j = j + 1;
            }
            proof {
                assert(row@ =~= self.grid()[i as int]);
            }
            data.push(row);
            i = i + 1;
        }
        let m = Matrix { rows: self.rows, cols: self.cols, data };
        proof {
            assert(m.grid() =~~= self.grid());
        }
        m
    }
}

} // verus!
