//! The matrix container and its staged builder.
//!
//! A [`Matrix`] owns its row count, its column count and one flat element
//! buffer of length `rows * cols`. The entry at row `a`, column `b` sits at
//! flat offset `a * cols + b`; every read and write in this module goes
//! through that one convention.

use vstd::prelude::*;

use crate::numeric::Numeric;

verus! {

/// The failures a matrix operation can report.
///
/// Both variants mark a violated precondition of the caller, never a
/// transient runtime state; the operation that would break an invariant is
/// refused before any mutation happens.
#[derive(Clone, Copy, Debug, PartialEq, Eq, Structural)]
pub enum MatrixError {
    /// A coordinate fell outside the matrix's declared extent.
    OutOfBounds,
    /// A shape was unusable: an identity was asked of a non-square matrix,
    /// or a builder was finalized with a zero dimension.
    ShapeError,
}

/// An `rows x cols` matrix of a numeric type, stored as one flat buffer.
///
/// The buffer always holds exactly `rows * cols` elements; the entry at
/// row `a`, column `b` is the buffer element at offset `a * cols + b`.
#[derive(Debug)]
pub struct Matrix<T> {
    cols: usize,
    rows: usize,
    data: Vec<T>,
}

impl<T> View for Matrix<T> {
    type V = Seq<T>;

    /// The flat element buffer, in row-major order.
    closed spec fn view(&self) -> Seq<T> {
        self.data@
    }
}

impl<T> Matrix<T> {
    /// The column count, as a mathematical value.
    pub closed spec fn spec_cols(self) -> int {
        self.cols as int
    }

    /// The row count, as a mathematical value.
    pub closed spec fn spec_rows(self) -> int {
        self.rows as int
    }

    /// Well-formedness: the flat buffer holds exactly one element per
    /// coordinate of the declared shape.
    pub open spec fn wf(self) -> bool {
        self@.len() == self.spec_rows() * self.spec_cols()
    }

    /// Whether row `a`, column `b` names an entry of this matrix.
    pub open spec fn in_bounds(self, a: int, b: int) -> bool {
        0 <= a < self.spec_rows() && 0 <= b < self.spec_cols()
    }

    /// The flat offset of row `a`, column `b`: the single addressing
    /// convention of the crate.
    pub open spec fn offset(self, a: int, b: int) -> int {
        a * self.spec_cols() + b
    }

    /// The entry at row `a`, column `b`.
    pub open spec fn entry(self, a: int, b: int) -> T {
        self@[self.offset(a, b)]
    }

    /// Whether a square shape is declared: as many rows as columns.
    pub open spec fn spec_is_square(self) -> bool {
        self.spec_rows() == self.spec_cols()
    }

    /// Whether every buffer element equals `v`.
    pub open spec fn filled_with(self, v: T) -> bool {
        forall|i: int| 0 <= i < self@.len() ==> self@[i] == v
    }
}

/// A flat offset `a * c + b` of an in-bounds coordinate lies within a
/// buffer of `r * c` elements.
proof fn lemma_offset_in_range(r: int, c: int, a: int, b: int)
    by (nonlinear_arith)
    requires
        0 <= a < r,
        0 <= b < c,
    ensures
        0 <= a * c + b < r * c,
{
}

/// Distinct coordinates with in-range column parts have distinct flat
/// offsets: the addressing convention never aliases two entries.
proof fn lemma_offset_injective(c: int, a1: int, b1: int, a2: int, b2: int)
    by (nonlinear_arith)
    requires
        0 <= a1,
        0 <= a2,
        0 <= b1 < c,
        0 <= b2 < c,
        a1 * c + b1 == a2 * c + b2,
    ensures
        a1 == a2,
        b1 == b2,
{
}

/// Law: in a well-formed matrix whose buffer is filled with `v`, every
/// in-bounds coordinate reads back `v`.
pub proof fn lemma_filled_entry<T>(m: Matrix<T>, v: T, a: int, b: int)
    requires
        m.wf(),
        m.filled_with(v),
        m.in_bounds(a, b),
    ensures
        m.entry(a, b) == v,
{
    lemma_offset_in_range(m.spec_rows(), m.spec_cols(), a, b);
}

/// Law: replacing the buffer element at the offset of one in-bounds
/// coordinate sets exactly that entry and leaves every other in-bounds
/// entry unchanged.
pub proof fn lemma_update_entry<T>(m0: Matrix<T>, m1: Matrix<T>, a: int, b: int, v: T)
    requires
        m0.wf(),
        m0.in_bounds(a, b),
        m1.spec_rows() == m0.spec_rows(),
        m1.spec_cols() == m0.spec_cols(),
        m1@ == m0@.update(m0.offset(a, b), v),
    ensures
        m1.wf(),
        m1.entry(a, b) == v,
        forall|x: int, y: int|
            m0.in_bounds(x, y) && !(x == a && y == b) ==> m1.entry(x, y) == m0.entry(x, y),
{
    lemma_offset_in_range(m0.spec_rows(), m0.spec_cols(), a, b);
    assert forall|x: int, y: int|
        m0.in_bounds(x, y) && !(x == a && y == b) implies m1.entry(x, y) == m0.entry(x, y) by {
        lemma_offset_in_range(m0.spec_rows(), m0.spec_cols(), x, y);
        if m0.offset(x, y) == m0.offset(a, b) {
            lemma_offset_injective(m0.spec_cols(), x, y, a, b);
        }
    }
}

impl<T: Numeric> Matrix<T> {
    /// Constructs a zero-filled `rows x cols` matrix.
    ///
    /// Zero dimensions are permitted here (the buffer is then empty); only
    /// the builder refuses them. The product of the dimensions must fit in
    /// `usize`, since it is the length of the allocated buffer.
    pub fn new(rows: usize, cols: usize) -> (m: Matrix<T>)
        requires
            rows * cols <= usize::MAX,
        ensures
            m.wf(),
            m.spec_rows() == rows,
            m.spec_cols() == cols,
            m.filled_with(T::zero_spec()),
    {
        let n: usize = rows * cols;
        let mut data: Vec<T> = Vec::new();
        while data.len() < n
            invariant
                data@.len() <= n,
                forall|i: int| 0 <= i < data@.len() ==> data@[i] == T::zero_spec(),
            decreases n - data@.len(),
        {
            data.push(T::zero());
        }
        Matrix { cols, rows, data }
    }

    /// The number of columns.
    pub fn cols(&self) -> (c: usize)
        ensures
            c == self.spec_cols(),
    {
        self.cols
    }

    /// The number of rows.
    pub fn rows(&self) -> (r: usize)
        ensures
            r == self.spec_rows(),
    {
        self.rows
    }

    /// Whether the matrix is square.
    pub fn is_square(&self) -> (r: bool)
        ensures
            r == self.spec_is_square(),
    {
        self.cols == self.rows
    }

    /// The flat element buffer, in row-major order.
    pub fn elements(&self) -> (r: &Vec<T>)
        ensures
            r@ == self@,
    {
        &self.data
    }

    /// Reads the entry at row `a`, column `b`.
    ///
    /// Returns `Ok` with the entry exactly when the coordinate is in
    /// bounds, and `Err(OutOfBounds)` on every other coordinate.
    pub fn get(&self, a: usize, b: usize) -> (r: Result<T, MatrixError>)
        requires
            self.wf(),
        ensures
            self.in_bounds(a as int, b as int) ==> r == Ok::<T, MatrixError>(
                self.entry(a as int, b as int),
            ),
            !self.in_bounds(a as int, b as int) ==> r == Err::<T, MatrixError>(
                MatrixError::OutOfBounds,
            ),
    {
        if a < self.rows && b < self.cols {
            proof {
                lemma_offset_in_range(self.spec_rows(), self.spec_cols(), a as int, b as int);
                assert(self.data.len() == self@.len());
            }
            let idx: usize = a * self.cols + b;
            Ok(self.data[idx])
        } else {
            Err(MatrixError::OutOfBounds)
        }
    }

    /// Writes `v` to the entry at row `a`, column `b`.
    ///
    /// Returns `Ok` exactly when the coordinate is in bounds; the write
    /// then replaces that single entry and leaves every other entry, and
    /// the shape, unchanged. On every other coordinate it returns
    /// `Err(OutOfBounds)` and leaves the matrix untouched.
    pub fn set(&mut self, a: usize, b: usize, v: T) -> (r: Result<(), MatrixError>)
        requires
            old(self).wf(),
        ensures
            final(self).wf(),
            final(self).spec_rows() == old(self).spec_rows(),
            final(self).spec_cols() == old(self).spec_cols(),
            old(self).in_bounds(a as int, b as int) ==> {
                &&& r == Ok::<(), MatrixError>(())
                &&& final(self)@ == old(self)@.update(old(self).offset(a as int, b as int), v)
                &&& final(self).entry(a as int, b as int) == v
                &&& forall|x: int, y: int|
                    old(self).in_bounds(x, y) && !(x == a && y == b) ==> final(self).entry(x, y)
                        == old(self).entry(x, y)
            },
            !old(self).in_bounds(a as int, b as int) ==> {
                &&& r == Err::<(), MatrixError>(MatrixError::OutOfBounds)
                &&& *final(self) == *old(self)
            },
    {
        if a < self.rows && b < self.cols {
            proof {
                lemma_offset_in_range(self.spec_rows(), self.spec_cols(), a as int, b as int);
                assert(self.data.len() == self@.len());
            }
            let idx: usize = a * self.cols + b;
            self.data[idx] = v;
            proof {
                lemma_update_entry(*old(self), *self, a as int, b as int, v);
            }
            Ok(())
        } else {
            Err(MatrixError::OutOfBounds)
        }
    }

    /// Replaces the whole buffer with `rows * cols` copies of `v`.
    ///
    /// Never fails; on a zero-sized matrix the buffer stays empty.
    pub fn fill_with(&mut self, v: T)
        requires
            old(self).wf(),
        ensures
            final(self).wf(),
            final(self).spec_rows() == old(self).spec_rows(),
            final(self).spec_cols() == old(self).spec_cols(),
            final(self).filled_with(v),
    {
        proof {
            assert(self.data.len() == self@.len());
        }
        let n: usize = self.rows * self.cols;
        let mut data: Vec<T> = Vec::new();
        while data.len() < n
            invariant
                data@.len() <= n,
                forall|i: int| 0 <= i < data@.len() ==> data@[i] == v,
            decreases n - data@.len(),
        {
            data.push(v);
        }
        self.data = data;
    }

    /// Turns a square matrix into the identity matrix: ones on the
    /// diagonal, zeros elsewhere.
    ///
    /// Returns `Ok` exactly when the matrix is square. On a non-square
    /// matrix it returns `Err(ShapeError)` and leaves the matrix
    /// unmodified; squareness itself is never changed by this call.
    pub fn identity(&mut self) -> (r: Result<(), MatrixError>)
        requires
            old(self).wf(),
        ensures
            final(self).wf(),
            final(self).spec_rows() == old(self).spec_rows(),
            final(self).spec_cols() == old(self).spec_cols(),
            final(self).spec_is_square() == old(self).spec_is_square(),
            old(self).spec_is_square() ==> {
                &&& r == Ok::<(), MatrixError>(())
                &&& forall|x: int, y: int|
                    final(self).in_bounds(x, y) ==> final(self).entry(x, y) == (if x == y {
                        T::one_spec()
                    } else {
                        T::zero_spec()
                    })
            },
            !old(self).spec_is_square() ==> {
                &&& r == Err::<(), MatrixError>(MatrixError::ShapeError)
                &&& *final(self) == *old(self)
            },
    {
        if self.cols != self.rows {
            return Err(MatrixError::ShapeError);
        }
        self.fill_with(T::zero());
        let ghost rows0: int = self.spec_rows();
        let ghost cols0: int = self.spec_cols();
        proof {
            assert forall|x: int, y: int| self.in_bounds(x, y) implies self.entry(x, y)
                == T::zero_spec() by {
                lemma_filled_entry(*self, T::zero_spec(), x, y);
            }
        }
        let mut i: usize = 0;
        while i < self.cols
            invariant
                self.wf(),
                self.spec_rows() == rows0,
                self.spec_cols() == cols0,
                rows0 == cols0,
                i <= cols0,
                forall|x: int, y: int|
                    self.in_bounds(x, y) && x == y && x < i ==> self.entry(x, y) == T::one_spec(),
                forall|x: int, y: int|
                    self.in_bounds(x, y) && !(x == y && x < i) ==> self.entry(x, y)
                        == T::zero_spec(),
            decreases cols0 - i,
        {
            proof {
                lemma_offset_in_range(self.spec_rows(), self.spec_cols(), i as int, i as int);
                assert(self.data.len() == self@.len());
            }
            let idx: usize = i * self.cols + i;
            let ghost before: Matrix<T> = *self;
            self.data[idx] = T::one();
            proof {
                lemma_update_entry(before, *self, i as int, i as int, T::one_spec());
            }
            i = i + 1;
        }
        Ok(())
    }
}

/// A staged configuration for a [`Matrix`]: accumulates a column count and
/// a row count, then produces a validated matrix exactly once.
///
/// The builder is the only construction path that refuses degenerate
/// shapes: a staged dimension of zero fails [`MatrixBuilder::finalize`].
/// Each setter consumes the builder and hands it back, so calls chain;
/// `finalize` consumes it for good.
#[derive(Debug)]
pub struct MatrixBuilder<T> {
    cols: usize,
    rows: usize,
    elem: core::marker::PhantomData<T>,
}

impl<T> MatrixBuilder<T> {
    /// The staged column count, as a mathematical value.
    pub closed spec fn spec_cols(self) -> int {
        self.cols as int
    }

    /// The staged row count, as a mathematical value.
    pub closed spec fn spec_rows(self) -> int {
        self.rows as int
    }
}

impl<T: Numeric> MatrixBuilder<T> {
    /// Starts an empty builder: both staged dimensions are zero.
    pub fn new() -> (b: MatrixBuilder<T>)
        ensures
            b.spec_cols() == 0,
            b.spec_rows() == 0,
    {
        MatrixBuilder { cols: 0, rows: 0, elem: core::marker::PhantomData }
    }

    /// Overwrites the staged column count; no validation happens here.
    pub fn set_cols(self, cols: usize) -> (b: MatrixBuilder<T>)
        ensures
            b.spec_cols() == cols,
            b.spec_rows() == self.spec_rows(),
    {
        MatrixBuilder { cols, rows: self.rows, elem: core::marker::PhantomData }
    }

    /// Overwrites the staged row count; no validation happens here.
    pub fn set_rows(self, rows: usize) -> (b: MatrixBuilder<T>)
        ensures
            b.spec_rows() == rows,
            b.spec_cols() == self.spec_cols(),
    {
        MatrixBuilder { cols: self.cols, rows, elem: core::marker::PhantomData }
    }

    /// Consumes the builder and produces the staged matrix.
    ///
    /// Fails with `ShapeError` exactly when a staged dimension is zero; on
    /// success the matrix has the staged shape and a fully zero-filled
    /// buffer. The product of the staged dimensions must fit in `usize`,
    /// since it is the length of the allocated buffer.
    pub fn finalize(self) -> (r: Result<Matrix<T>, MatrixError>)
        requires
            self.spec_rows() * self.spec_cols() <= usize::MAX,
        ensures
            (self.spec_cols() == 0 || self.spec_rows() == 0) ==> r == Err::<
                Matrix<T>,
                MatrixError,
            >(MatrixError::ShapeError),
            (self.spec_cols() > 0 && self.spec_rows() > 0) ==> {
                &&& r is Ok
                &&& r->Ok_0.wf()
                &&& r->Ok_0.spec_rows() == self.spec_rows()
                &&& r->Ok_0.spec_cols() == self.spec_cols()
                &&& r->Ok_0.filled_with(T::zero_spec())
            },
    {
        if self.cols == 0 {
            return Err(MatrixError::ShapeError);
        }
        if self.rows == 0 {
            return Err(MatrixError::ShapeError);
        }
        Ok(Matrix::new(self.rows, self.cols))
    }
}

} // verus!
