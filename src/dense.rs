use vstd::arithmetic::div_mod::lemma_fundamental_div_mod_converse;
use vstd::prelude::*;

use crate::common::{CopyOps, Error};
use crate::vec::{Vector, VectorRecord};

verus! {

/// Column-major position arithmetic: an in-bounds position `(i, j)` of a
/// `rows x cols` matrix has an offset below `rows * cols`.
pub proof fn lemma_position_in_bounds(rows: int, cols: int, i: int, j: int)
    requires
        0 <= i < rows,
        0 <= j < cols,
    ensures
        0 <= i + j * rows < rows * cols,
{
    assert(0 <= j * rows) by (nonlinear_arith)
        requires
            0 <= j,
            0 <= rows,
    ;
    assert(j * rows + rows <= cols * rows) by (nonlinear_arith)
        requires
            j + 1 <= cols,
            0 <= rows,
    ;
    assert(rows * cols == cols * rows) by (nonlinear_arith);
}

/// Column-major offsets are distinct for distinct in-bounds positions.
pub proof fn lemma_position_unique(rows: int, i1: int, j1: int, i2: int, j2: int)
    requires
        0 <= i1 < rows,
        0 <= i2 < rows,
        0 <= j1,
        0 <= j2,
        i1 + j1 * rows == i2 + j2 * rows,
    ensures
        i1 == i2,
        j1 == j2,
{
    if j1 < j2 {
        assert(j1 * rows + rows <= j2 * rows) by (nonlinear_arith)
            requires
                j1 + 1 <= j2,
                0 <= rows,
        ;
    } else if j2 < j1 {
        assert(j2 * rows + rows <= j1 * rows) by (nonlinear_arith)
            requires
                j2 + 1 <= j1,
                0 <= rows,
        ;
    }
}

/// The position that the `k`-th element of a column-major traversal of a
/// matrix with `rows` rows stands at: `(k mod rows, k div rows)`.
pub proof fn lemma_traversal_position(rows: int, cols: int, k: int)
    requires
        0 < rows,
        0 <= k < rows * cols,
    ensures
        0 <= k % rows < rows,
        0 <= k / rows < cols,
        k % rows + (k / rows) * rows == k,
{
    assert(k == rows * (k / rows) + k % rows) by (nonlinear_arith)
        requires
            0 < rows,
    ;
    assert(0 <= k % rows < rows) by (nonlinear_arith)
        requires
            0 < rows,
    ;
    assert(0 <= k / rows) by (nonlinear_arith)
        requires
            0 < rows,
            0 <= k,
    ;
    assert((k / rows) * rows == rows * (k / rows)) by (nonlinear_arith);
    if k / rows >= cols {
        assert(rows * (k / rows) >= rows * cols) by (nonlinear_arith)
            requires
                k / rows >= cols,
                0 < rows,
        ;
    }
}

/// A column-major storage descriptor: element `(i, j)` of the window lives at
/// `offset + i + j * step` of a buffer.
#[derive(Clone, Copy, Debug, PartialEq, Eq, Structural)]
pub struct Dense {
    pub offset: usize,
    pub step: usize,
    pub rows: usize,
    pub cols: usize,
}

impl Dense {
    /// The buffer position of element `(i, j)`.
    pub open spec fn index(self, i: int, j: int) -> int {
        self.offset + i + j * self.step
    }

    /// The buffer position of element `k` of a window with one row or one
    /// column.
    pub open spec fn index_at(self, k: int) -> int {
        if self.rows == 1 {
            self.index(0, k)
        } else {
            self.index(k, 0)
        }
    }

    /// The number of elements of the window.
    pub open spec fn len(self) -> int {
        self.rows * self.cols
    }

    /// The window is laid out column-major and each of its elements lies in
    /// a buffer of `n` elements.
    pub open spec fn fits(self, n: int) -> bool {
        &&& self.step >= self.rows
        &&& forall|i: int, j: int|
            0 <= i < self.rows && 0 <= j < self.cols ==> 0 <= #[trigger] self.index(i, j) < n
    }

    /// The window has one row or one column.
    pub open spec fn is_vector(self) -> bool {
        self.rows == 1 || self.cols == 1
    }
}

/// An owning matrix of IEEE-754 binary64 values, each held as its bit
/// pattern, in column-major order.
pub struct Matrix {
    elems: Vec<u64>,
    rows: u32,
    cols: u32,
}

impl Matrix {
    pub closed spec fn spec_rows(self) -> nat {
        self.rows as nat
    }

    pub closed spec fn spec_cols(self) -> nat {
        self.cols as nat
    }

    /// The storage buffer, column-major.
    pub closed spec fn view(self) -> Seq<u64> {
        self.elems@
    }

    /// The buffer holds exactly `rows * cols` elements, a count that fits
    /// in `usize`.
    pub open spec fn wf(self) -> bool {
        &&& self.spec_rows() <= u32::MAX
        &&& self.spec_cols() <= u32::MAX
        &&& self.spec_rows() * self.spec_cols() <= usize::MAX
        &&& self@.len() == self.spec_rows() * self.spec_cols()
    }

    /// The descriptor of the whole matrix.
    pub open spec fn desc(self) -> Dense {
        Dense {
            offset: 0,
            step: self.spec_rows() as usize,
            rows: self.spec_rows() as usize,
            cols: self.spec_cols() as usize,
        }
    }

    /// The buffer position of element `(i, j)`.
    pub open spec fn pos(self, i: int, j: int) -> int {
        i + j * self.spec_rows()
    }

    /// Element `(i, j)`.
    pub open spec fn elem(self, i: int, j: int) -> u64 {
        self@[self.pos(i, j)]
    }

    /// `(i, j)` is a position of the matrix.
    pub open spec fn in_bounds(self, i: int, j: int) -> bool {
        0 <= i < self.spec_rows() && 0 <= j < self.spec_cols()
    }

    /// Creates a `rows x cols` matrix whose elements are all `+0.0`.
    pub fn new(rows: u32, cols: u32) -> (r: Matrix)
        requires
            rows as int * cols as int <= usize::MAX,
        ensures
            r.wf(),
            r.spec_rows() == rows,
            r.spec_cols() == cols,
            forall|k: int| 0 <= k < r@.len() ==> r@[k] == 0,
    {
        let n: usize = (rows as usize) * (cols as usize);
        let mut elems: Vec<u64> = Vec::new();
        let mut k: usize = 0;
        while k < n
            invariant
                k <= n,
                elems@.len() == k,
                forall|t: int| 0 <= t < k ==> elems@[t] == 0,
            decreases n - k,
        {
            elems.push(0);
            k = k + 1;
        }
        Matrix { elems, rows, cols }
    }

    /// The number of rows and columns.
    pub fn size(&self) -> (r: (u32, u32))
        ensures
            r.0 == self.spec_rows(),
            r.1 == self.spec_cols(),
    {
        (self.rows, self.cols)
    }

    /// Element `(i, j)`.
    pub fn get(&self, i: u32, j: u32) -> (r: u64)
        requires
            self.wf(),
            self.in_bounds(i as int, j as int),
        ensures
            r == self.elem(i as int, j as int),
    {
        let n: usize = self.elems.len();
        proof {
            lemma_position_in_bounds(self.rows as int, self.cols as int, i as int, j as int);
            assert(n == self@.len());
        }
        self.elems[(i as usize) + (j as usize) * (self.rows as usize)]
    }

    /// Sets element `(i, j)` to `value`; every other element keeps its value.
    pub fn set(&mut self, i: u32, j: u32, value: u64)
        requires
            old(self).wf(),
            old(self).in_bounds(i as int, j as int),
        ensures
            final(self).wf(),
            final(self).spec_rows() == old(self).spec_rows(),
            final(self).spec_cols() == old(self).spec_cols(),
            final(self)@ == old(self)@.update(old(self).pos(i as int, j as int), value),
            final(self).elem(i as int, j as int) == value,
            forall|a: int, b: int|
                old(self).in_bounds(a, b) && (a, b) != (i as int, j as int)
                    ==> #[trigger] final(self).elem(a, b) == old(self).elem(a, b),
    {
        let n: usize = self.elems.len();
        proof {
            lemma_position_in_bounds(self.rows as int, self.cols as int, i as int, j as int);
            assert(n == self@.len());
        }
        let p: usize = (i as usize) + (j as usize) * (self.rows as usize);
        self.elems.set(p, value);
        proof {
            assert forall|a: int, b: int|
                old(self).in_bounds(a, b) && (a, b) != (i as int, j as int)
                implies #[trigger] self.elem(a, b) == old(self).elem(a, b) by {
                lemma_position_in_bounds(self.rows as int, self.cols as int, a, b);
                if old(self).pos(a, b) == p as int {
                    lemma_position_unique(self.rows as int, a, b, i as int, j as int);
                }
            }
        }
    }
}


impl Matrix {
    /// A view of the `nrows x ncols` block whose top left element is
    /// `(row, col)`. Reads and writes through the view reach this matrix.
    pub fn submatrix(&self, row: u32, col: u32, nrows: u32, ncols: u32) -> (r: MatrixView)
        requires
            self.wf(),
            row as int + nrows as int <= self.spec_rows(),
            col as int + ncols as int <= self.spec_cols(),
        ensures
            r.wf(),
            r.view_of(*self),
            r.desc() == self.submatrix_desc(row as int, col as int, nrows as int, ncols as int),
            forall|a: int, b: int|
                0 <= a < nrows && 0 <= b < ncols ==> #[trigger] r.desc().index(a, b) == self.pos(
                    row + a,
                    col + b,
                ),
    {
        let n: usize = self.elems.len();
        let rows = self.rows as usize;
        let offset: usize = if nrows == 0 || ncols == 0 {
            0
        } else {
            proof {
                lemma_position_in_bounds(self.rows as int, self.cols as int, row as int, col as int);
            }
            (row as usize) + (col as usize) * rows
        };
        let desc = Dense { offset, step: rows, rows: nrows as usize, cols: ncols as usize };
        proof {
            assert forall|a: int, b: int| 0 <= a < nrows && 0 <= b < ncols implies #[trigger] desc.index(
                a,
                b,
            ) == self.pos(row + a, col + b) && 0 <= desc.index(a, b) < n by {
                assert((col + b) * rows == col * rows + b * rows) by (nonlinear_arith);
                lemma_position_in_bounds(
                    self.rows as int,
                    self.cols as int,
                    row + a,
                    col + b,
                );
            }
        }
        MatrixView { desc, prows: self.rows, pcols: self.cols }
    }

    /// A view of row `i`, as a vector of `cols` elements.
    pub fn row(&self, i: u32) -> (r: VectorView)
        requires
            self.wf(),
            i < self.spec_rows(),
        ensures
            r.wf(),
            r.view_of(*self),
            r.desc() == self.row_desc(i as int),
            forall|k: int| 0 <= k < self.spec_cols() ==> #[trigger] r.desc().index_at(k) == self.pos(i as int, k),
    {
        let desc = Dense { offset: i as usize, step: self.rows as usize, rows: 1, cols: self.cols as usize };
        proof {
            assert forall|a: int, b: int| 0 <= a < 1 && 0 <= b < self.spec_cols() implies 0 <= #[trigger] desc.index(
                a,
                b,
            ) < self@.len() by {
                lemma_position_in_bounds(self.rows as int, self.cols as int, i as int, b);
            }
        }
        VectorView { desc, prows: self.rows, pcols: self.cols }
    }

    /// A view of column `j`, as a vector of `rows` elements.
    pub fn column(&self, j: i32) -> (r: VectorView)
        requires
            self.wf(),
            0 <= j < self.spec_cols(),
        ensures
            r.wf(),
            r.view_of(*self),
            r.desc() == self.column_desc(j as int),
            forall|k: int| 0 <= k < self.spec_rows() ==> #[trigger] r.desc().index_at(k) == self.pos(k, j as int),
    {
        let n: usize = self.elems.len();
        let rows = self.rows as usize;
        let offset: usize = if rows == 0 {
            0
        } else {
            proof {
                lemma_position_in_bounds(self.rows as int, self.cols as int, 0, j as int);
                assert(n == self@.len());
            }
            (j as usize) * rows
        };
        let desc = Dense { offset, step: rows, rows, cols: 1 };
        proof {
            assert forall|a: int, b: int| 0 <= a < rows && 0 <= b < 1 implies 0 <= #[trigger] desc.index(
                a,
                b,
            ) < self@.len() by {
                lemma_position_in_bounds(self.rows as int, self.cols as int, a, j as int);
            }
        }
        VectorView { desc, prows: self.rows, pcols: self.cols }
    }

    /// The descriptor of the view of the block at `(row, col)`.
    pub open spec fn submatrix_desc(self, row: int, col: int, nrows: int, ncols: int) -> Dense {
        Dense {
            offset: if nrows == 0 || ncols == 0 {
                0
            } else {
                (row + col * self.spec_rows()) as usize
            },
            step: self.spec_rows() as usize,
            rows: nrows as usize,
            cols: ncols as usize,
        }
    }

    /// The descriptor of the view of row `i`.
    pub open spec fn row_desc(self, i: int) -> Dense {
        Dense {
            offset: i as usize,
            step: self.spec_rows() as usize,
            rows: 1,
            cols: self.spec_cols() as usize,
        }
    }

    /// The descriptor of the view of column `j`.
    pub open spec fn column_desc(self, j: int) -> Dense {
        Dense {
            offset: if self.spec_rows() == 0 {
                0
            } else {
                (j * self.spec_rows()) as usize
            },
            step: self.spec_rows() as usize,
            rows: self.spec_rows() as usize,
            cols: 1,
        }
    }

    /// The descriptor of the view of diagonal `k`: a single row whose step
    /// moves one row down and one column right.
    pub open spec fn diagonal_desc(self, k: int) -> Dense {
        let rows = self.spec_rows() as int;
        let cols = self.spec_cols() as int;
        let len = Self::diagonal_len(rows, cols, k);
        Dense {
            offset: if 0 <= k < cols && rows > 0 {
                (k * rows) as usize
            } else if k < 0 && -k < rows {
                (-k) as usize
            } else {
                0
            },
            step: if len > 1 {
                (rows + 1) as usize
            } else {
                1
            },
            rows: 1,
            cols: len as usize,
        }
    }

    /// The number of elements of diagonal `k` of a `rows x cols` matrix.
    pub open spec fn diagonal_len(rows: int, cols: int, k: int) -> int {
        if 0 <= k < cols {
            if rows < cols - k { rows } else { cols - k }
        } else if k < 0 && -k < rows {
            if rows + k < cols { rows + k } else { cols }
        } else {
            0
        }
    }

    /// The position of element `t` of diagonal `k`.
    pub open spec fn diagonal_pos(k: int, t: int) -> (int, int) {
        if k >= 0 { (t, t + k) } else { (t - k, t) }
    }

    /// A view of diagonal `k`: the main diagonal for `k == 0`, the `k`-th
    /// superdiagonal for `k > 0` and the `-k`-th subdiagonal for `k < 0`.
    /// A diagonal that lies outside the matrix is empty.
    pub fn diagonal(&self, k: i32) -> (r: VectorView)
        requires
            self.wf(),
        ensures
            r.wf(),
            r.view_of(*self),
            r.desc() == self.diagonal_desc(k as int),
            forall|t: int|
                0 <= t < r.desc().cols ==> {
                    let p = #[trigger] Self::diagonal_pos(k as int, t);
                    &&& self.in_bounds(p.0, p.1)
                    &&& r.desc().index_at(t) == self.pos(p.0, p.1)
                },
    {
        let rows = self.rows as usize;
        let cols = self.cols as usize;
        let n: usize = self.elems.len();
        let (offset, len): (usize, usize) = if k >= 0 && (k as usize) < cols && rows > 0 {
            let kk = k as usize;
            proof {
                lemma_position_in_bounds(self.rows as int, self.cols as int, 0, k as int);
                assert(n == self@.len());
            }
            (kk * rows, if rows < cols - kk { rows } else { cols - kk })
        } else if k < 0 && ((-(k as i64)) as usize) < rows {
            let kk = (-(k as i64)) as usize;
            (kk, if rows - kk < cols { rows - kk } else { cols })
        } else {
            (0, 0)
        };
        let step: usize = if len > 1 {
            assert(rows + 1 <= n) by (nonlinear_arith)
                requires
                    rows >= 2,
                    cols >= 2,
                    n == rows * cols,
            ;
            rows + 1
        } else {
            1
        };
        let desc = Dense { offset, step, rows: 1, cols: len };
        proof {
            assert forall|a: int, t: int| 0 <= a < 1 && 0 <= t < len implies {
                let p = Self::diagonal_pos(k as int, t);
                &&& self.in_bounds(p.0, p.1)
                &&& #[trigger] desc.index(a, t) == self.pos(p.0, p.1)
                &&& 0 <= desc.index(a, t) < self@.len()
            } by {
                let p = Self::diagonal_pos(k as int, t);
                assert(a == 0);
                if t == 0 {
                    assert(desc.index(a, t) == offset);
                } else {
                    assert(step == rows + 1);
                    assert(t * step == t * rows + t) by (nonlinear_arith)
                        requires
                            step == rows + 1,
                    ;
                }
                assert(desc.index(a, t) == offset + t * rows + t);
                if k >= 0 {
                    assert(offset == k * rows);
                    assert((t + k) * rows == t * rows + k * rows) by (nonlinear_arith);
                    assert(p == (t, t + k));
                } else {
                    assert(p == (t - k, t));
                }
                lemma_position_in_bounds(self.rows as int, self.cols as int, p.0, p.1);
            }
            assert forall|t: int| 0 <= t < len implies {
                let p = #[trigger] Self::diagonal_pos(k as int, t);
                &&& self.in_bounds(p.0, p.1)
                &&& desc.index_at(t) == self.pos(p.0, p.1)
            } by {
                assert(desc.index(0, t) == desc.index_at(t));
            }
        }
        VectorView { desc, prows: self.rows, pcols: self.cols }
    }
}

/// A window onto a block of an owning matrix. It holds no elements: reads and
/// writes name the matrix that it was taken from.
#[derive(Clone, Copy, Debug, PartialEq, Eq, Structural)]
pub struct MatrixView {
    desc: Dense,
    prows: u32,
    pcols: u32,
}

impl MatrixView {
    pub closed spec fn desc(self) -> Dense {
        self.desc
    }

    /// The number of rows of the matrix that the view was taken from.
    pub closed spec fn parent_rows(self) -> nat {
        self.prows as nat
    }

    /// The number of columns of the matrix that the view was taken from.
    pub closed spec fn parent_cols(self) -> nat {
        self.pcols as nat
    }

    /// The shape fits the size type of the library, and the window lies in
    /// the buffer of a matrix of the parent's shape.
    pub open spec fn wf(self) -> bool {
        &&& self.desc().rows <= u32::MAX
        &&& self.desc().cols <= u32::MAX
        &&& self.parent_rows() <= u32::MAX
        &&& self.parent_cols() <= u32::MAX
        &&& self.parent_rows() * self.parent_cols() <= usize::MAX
        &&& self.desc().fits((self.parent_rows() * self.parent_cols()) as int)
    }

    /// `m` has the shape of the matrix that the view was taken from.
    pub open spec fn view_of(self, m: Matrix) -> bool {
        &&& m.wf()
        &&& m.spec_rows() == self.parent_rows()
        &&& m.spec_cols() == self.parent_cols()
    }

    /// Whether `m` has the shape of the matrix that the view was taken from.
    pub fn is_view_of(&self, m: &Matrix) -> (r: bool)
        ensures
            r == (m.spec_rows() == self.parent_rows() && m.spec_cols() == self.parent_cols()),
    {
        let (rows, cols) = m.size();
        rows == self.prows && cols == self.pcols
    }

    /// The storage descriptor of the window.
    pub fn descriptor(&self) -> (r: Dense)
        ensures
            r == self.desc(),
    {
        self.desc
    }

    /// The number of rows and columns.
    pub fn size(&self) -> (r: (u32, u32))
        requires
            self.wf(),
        ensures
            r.0 == self.desc().rows,
            r.1 == self.desc().cols,
    {
        (self.desc.rows as u32, self.desc.cols as u32)
    }

    /// Element `(i, j)` of the window, read from `m`.
    pub fn get(&self, m: &Matrix, i: u32, j: u32) -> (r: u64)
        requires
            self.wf(),
            self.view_of(*m),
            i < self.desc().rows,
            j < self.desc().cols,
        ensures
            r == m@[self.desc().index(i as int, j as int)],
    {
        let n: usize = m.elems.len();
        let ghost p = self.desc.index(i as int, j as int);
        assert(0 <= p < m@.len() == n);
        assert((j as usize) * self.desc.step <= p);
        m.elems[self.desc.offset + (i as usize) + (j as usize) * self.desc.step]
    }

    /// Sets element `(i, j)` of the window, in `m`.
    pub fn set(&self, m: &mut Matrix, i: u32, j: u32, value: u64)
        requires
            self.wf(),
            self.view_of(*old(m)),
            i < self.desc().rows,
            j < self.desc().cols,
        ensures
            final(m).wf(),
            final(m).spec_rows() == old(m).spec_rows(),
            final(m).spec_cols() == old(m).spec_cols(),
            final(m)@ == old(m)@.update(self.desc().index(i as int, j as int), value),
    {
        let n: usize = m.elems.len();
        let ghost p = self.desc.index(i as int, j as int);
        assert(0 <= p < m@.len() == n);
        assert((j as usize) * self.desc.step <= p);
        m.elems.set(self.desc.offset + (i as usize) + (j as usize) * self.desc.step, value);
    }
}

/// A window onto a row, a column or a diagonal of an owning matrix. It holds
/// no elements: reads and writes name the matrix that it was taken from.
#[derive(Clone, Copy, Debug, PartialEq, Eq, Structural)]
pub struct VectorView {
    desc: Dense,
    prows: u32,
    pcols: u32,
}

impl VectorView {
    pub closed spec fn desc(self) -> Dense {
        self.desc
    }

    /// The number of rows of the matrix that the view was taken from.
    pub closed spec fn parent_rows(self) -> nat {
        self.prows as nat
    }

    /// The number of columns of the matrix that the view was taken from.
    pub closed spec fn parent_cols(self) -> nat {
        self.pcols as nat
    }

    /// One row or one column, a length that fits the size type, and a window
    /// that lies in the buffer of a matrix of the parent's shape.
    pub open spec fn wf(self) -> bool {
        &&& self.desc().is_vector()
        &&& self.desc().len() <= u32::MAX
        &&& self.parent_rows() <= u32::MAX
        &&& self.parent_cols() <= u32::MAX
        &&& self.parent_rows() * self.parent_cols() <= usize::MAX
        &&& self.desc().fits((self.parent_rows() * self.parent_cols()) as int)
    }

    /// `m` has the shape of the matrix that the view was taken from.
    pub open spec fn view_of(self, m: Matrix) -> bool {
        &&& m.wf()
        &&& m.spec_rows() == self.parent_rows()
        &&& m.spec_cols() == self.parent_cols()
    }

    /// Whether `m` has the shape of the matrix that the view was taken from.
    pub fn is_view_of(&self, m: &Matrix) -> (r: bool)
        ensures
            r == (m.spec_rows() == self.parent_rows() && m.spec_cols() == self.parent_cols()),
    {
        let (rows, cols) = m.size();
        rows == self.prows && cols == self.pcols
    }

    /// The storage descriptor of the window.
    pub fn descriptor(&self) -> (r: Dense)
        ensures
            r == self.desc(),
    {
        self.desc
    }

    /// The number of elements.
    pub fn size(&self) -> (r: u32)
        requires
            self.wf(),
        ensures
            r == self.desc().len(),
    {
        if self.desc.rows == 1 {
            assert(self.desc.len() == self.desc.cols) by (nonlinear_arith)
                requires
                    self.desc.rows == 1,
                    self.desc.len() == self.desc.rows * self.desc.cols,
            ;
            self.desc.cols as u32
        } else {
            assert(self.desc.len() == self.desc.rows) by (nonlinear_arith)
                requires
                    self.desc.cols == 1,
                    self.desc.len() == self.desc.rows * self.desc.cols,
            ;
            self.desc.rows as u32
        }
    }

    /// Element `k` of the window, read from `m`.
    pub fn get(&self, m: &Matrix, k: u32) -> (r: u64)
        requires
            self.wf(),
            self.view_of(*m),
            k < self.desc().len(),
        ensures
            r == m@[self.desc().index_at(k as int)],
    {
        if self.desc.rows == 1 {
            let n: usize = m.elems.len();
            let ghost p = self.desc.index(0, k as int);
            assert(0 <= p < m@.len() == n);
            assert((k as usize) * self.desc.step <= p);
            m.elems[self.desc.offset + (k as usize) * self.desc.step]
        } else {
            let n: usize = m.elems.len();
            let ghost p = self.desc.index(k as int, 0);
            assert(0 <= p < m@.len() == n);
            m.elems[self.desc.offset + (k as usize)]
        }
    }

    /// Sets element `k` of the window, in `m`.
    pub fn set(&self, m: &mut Matrix, k: u32, value: u64)
        requires
            self.wf(),
            self.view_of(*old(m)),
            k < self.desc().len(),
        ensures
            final(m).wf(),
            final(m).spec_rows() == old(m).spec_rows(),
            final(m).spec_cols() == old(m).spec_cols(),
            final(m)@ == old(m)@.update(self.desc().index_at(k as int), value),
    {
        if self.desc.rows == 1 {
            let n: usize = m.elems.len();
            let ghost p = self.desc.index(0, k as int);
            assert(0 <= p < m@.len() == n);
            assert((k as usize) * self.desc.step <= p);
            m.elems.set(self.desc.offset + (k as usize) * self.desc.step, value);
        } else {
            let n: usize = m.elems.len();
            let ghost p = self.desc.index(k as int, 0);
            assert(0 <= p < m@.len() == n);
            m.elems.set(self.desc.offset + (k as usize), value);
        }
    }
}


/// The serialized form of a matrix: its shape and its elements in
/// column-major order.
pub struct MatrixRecord {
    pub rows: u32,
    pub cols: u32,
    pub data: Vec<u64>,
}

/// Offsets of a column-major traversal: position `i + j * rows` is visited as
/// the element at `(i, j)`.
pub proof fn lemma_position_div_mod(rows: int, i: int, j: int)
    requires
        0 <= i < rows,
    ensures
        (i + j * rows) % rows == i,
        (i + j * rows) / rows == j,
{
    lemma_fundamental_div_mod_converse(i + j * rows, rows, j, i);
}

impl Matrix {
    /// What a copy with `opts` transfers at position `(i, j)`.
    pub open spec fn copy_selects(opts: CopyOps, i: int, j: int) -> bool {
        match opts {
            CopyOps::All => true,
            CopyOps::Lower => i >= j,
            CopyOps::Upper => i <= j,
            _ => false,
        }
    }

    /// The shape and elements of the matrix that a buffer gives: the first
    /// `rows * cols` elements where there are that many, else an empty matrix.
    pub open spec fn from_buffer_spec(rows: nat, cols: nat, data: Seq<u64>) -> (nat, nat, Seq<u64>) {
        if rows * cols <= data.len() {
            (rows, cols, data.subrange(0, (rows * cols) as int))
        } else {
            (0, 0, Seq::empty())
        }
    }

    /// The shape and elements of the matrix as a triple.
    pub open spec fn contents(self) -> (nat, nat, Seq<u64>) {
        (self.spec_rows(), self.spec_cols(), self@)
    }

    /// The `k`-th triple of a column-major traversal: the position
    /// `(k mod rows, k div rows)` and the element there.
    pub open spec fn triple(self, k: int) -> (u32, u32, u64) {
        let i = k % (self.spec_rows() as int);
        let j = k / (self.spec_rows() as int);
        (i as u32, j as u32, self.elem(i, j))
    }

    /// Takes `vec` as the storage of a `rows x cols` matrix. Where it holds
    /// fewer than `rows * cols` elements the result is an empty `0 x 0`
    /// matrix; elements beyond the first `rows * cols` are dropped.
    pub fn new_from(rows: u32, cols: u32, vec: Vec<u64>) -> (r: Matrix)
        ensures
            r.wf(),
            r.contents() == Self::from_buffer_spec(rows as nat, cols as nat, vec@),
    {
        let mut vec = vec;
        assert(rows as int * cols as int <= u64::MAX) by (nonlinear_arith)
            requires
                rows <= u32::MAX,
                cols <= u32::MAX,
        ;
        let n: u64 = (rows as u64) * (cols as u64);
        if n <= vec.len() as u64 {
            vec.truncate(n as usize);
            assert(vec@.len() == rows as nat * cols as nat);
            Matrix { elems: vec, rows, cols }
        } else {
            let r = Matrix { elems: Vec::new(), rows: 0, cols: 0 };
            assert(r.spec_rows() == 0);
            assert(r.spec_rows() * r.spec_cols() == 0) by (nonlinear_arith)
                requires
                    r.spec_rows() == 0,
            ;
            r
        }
    }

    /// A `rows x cols` matrix holding the first `rows * cols` elements of
    /// `vec`, or an empty `0 x 0` matrix where `vec` is shorter.
    pub fn from_vector(rows: u32, cols: u32, vec: &Vec<u64>) -> (r: Matrix)
        ensures
            r.wf(),
            r.contents() == Self::from_buffer_spec(rows as nat, cols as nat, vec@),
    {
        let copy = vec.clone();
        assert(copy@ =~= vec@);
        Matrix::new_from(rows, cols, copy)
    }

    /// Sets every element to a value drawn from `func`, in column-major
    /// order.
    pub fn set_all<F: Fn() -> u64>(&mut self, func: F)
        requires
            old(self).wf(),
            call_requires(func, ()),
        ensures
            final(self).wf(),
            final(self).spec_rows() == old(self).spec_rows(),
            final(self).spec_cols() == old(self).spec_cols(),
            forall|k: int| 0 <= k < final(self)@.len() ==> call_ensures(func, (), #[trigger] final(self)@[k]),
    {
        let n = self.elems.len();
        let mut k: usize = 0;
        while k < n
            invariant
                k <= n,
                n == self@.len(),
                self.wf(),
                self.spec_rows() == old(self).spec_rows(),
                self.spec_cols() == old(self).spec_cols(),
                call_requires(func, ()),
                forall|t: int| 0 <= t < k ==> call_ensures(func, (), #[trigger] self@[t]),
            decreases n - k,
        {
            let v = func();
            self.elems.set(k, v);
            k = k + 1;
        }
    }

    /// Copies the part of this matrix that `opts` selects into `dst`, which
    /// must have the same shape. The other elements of `dst` keep their
    /// values. A shape mismatch is `ESize`; the symmetric and unit diagonal
    /// selections are the kernel's copy (`EImp` here). On error `dst` is
    /// unchanged.
    pub fn copy_to(&self, dst: &mut Matrix, opts: CopyOps) -> (r: Result<(), Error>)
        requires
            self.wf(),
            old(dst).wf(),
        ensures
            final(dst).wf(),
            final(dst).spec_rows() == old(dst).spec_rows(),
            final(dst).spec_cols() == old(dst).spec_cols(),
            r == if self.spec_rows() != old(dst).spec_rows() || self.spec_cols() != old(
                dst,
            ).spec_cols() {
                Err::<(), Error>(Error::ESize)
            } else if opts == CopyOps::Symm || opts == CopyOps::Unit {
                Err(Error::EImp)
            } else {
                Ok(())
            },
            r.is_err() ==> *final(dst) == *old(dst),
            r.is_ok() ==> forall|i: int, j: int|
                self.in_bounds(i, j) ==> #[trigger] final(dst).elem(i, j) == if Self::copy_selects(
                    opts,
                    i,
                    j,
                ) {
                    self.elem(i, j)
                } else {
                    old(dst).elem(i, j)
                },
    {
        if self.rows != dst.rows || self.cols != dst.cols {
            return Err(Error::ESize);
        }
        match opts {
            CopyOps::Symm | CopyOps::Unit => {
                return Err(Error::EImp);
            },
            _ => {},
        }
        let rows = self.rows as usize;
        let n = self.elems.len();
        let mut k: usize = 0;
        while k < n
            invariant
                k <= n,
                n == self@.len(),
                self.wf(),
                dst.wf(),
                dst.spec_rows() == self.spec_rows(),
                dst.spec_cols() == self.spec_cols(),
                rows == self.spec_rows(),
                dst.spec_rows() == old(dst).spec_rows(),
                dst.spec_cols() == old(dst).spec_cols(),
                dst@.len() == old(dst)@.len(),
                opts != CopyOps::Symm && opts != CopyOps::Unit,
                forall|t: int|
                    0 <= t < k ==> #[trigger] dst@[t] == if Self::copy_selects(
                        opts,
                        t % (rows as int),
                        t / (rows as int),
                    ) {
                        self@[t]
                    } else {
                        old(dst)@[t]
                    },
                forall|t: int| k <= t < n ==> #[trigger] dst@[t] == old(dst)@[t],
            decreases n - k,
        {
            let i = k % rows;
            let j = k / rows;
            let take = match opts {
                CopyOps::Lower => i >= j,
                CopyOps::Upper => i <= j,
                _ => true,
            };
            if take {
                let v = self.elems[k];
                dst.elems.set(k, v);
            }
            k = k + 1;
        }
        proof {
            assert forall|i: int, j: int| self.in_bounds(i, j) implies #[trigger] dst.elem(i, j)
                == if Self::copy_selects(opts, i, j) {
                self.elem(i, j)
            } else {
                old(dst).elem(i, j)
            } by {
                lemma_position_in_bounds(rows as int, self.spec_cols() as int, i, j);
                lemma_position_div_mod(rows as int, i, j);
            }
        }
        Ok(())
    }

    /// The storage buffer, column-major, for handing to a kernel.
    pub fn as_slice(&self) -> (r: &[u64])
        ensures
            r@ == self@,
    {
        self.elems.as_slice()
    }

    /// The storage buffer, column-major, for a kernel to write into.
    pub fn as_mut_slice(&mut self) -> (r: &mut [u64])
        ensures
            r@ == old(self)@,
            final(r)@ == final(self)@,
            final(self).spec_rows() == old(self).spec_rows(),
            final(self).spec_cols() == old(self).spec_cols(),
    {
        self.elems.as_mut_slice()
    }

    /// The serialized form: the shape and the elements in column-major
    /// order.
    pub fn to_record(&self) -> (r: MatrixRecord)
        requires
            self.wf(),
        ensures
            (r.rows as nat, r.cols as nat, r.data@) == self.contents(),
    {
        let data = self.elems.clone();
        assert(data@ =~= self.elems@);
        MatrixRecord { rows: self.rows, cols: self.cols, data }
    }

    /// The owning matrix of a serialized form. Where the data holds fewer than
    /// `rows * cols` elements the result is an empty `0 x 0` matrix.
    pub fn from_record(rec: MatrixRecord) -> (r: Matrix)
        ensures
            r.wf(),
            r.contents() == Self::from_buffer_spec(rec.rows as nat, rec.cols as nat, rec.data@),
    {
        Matrix::new_from(rec.rows, rec.cols, rec.data)
    }

    /// An iterator over the `(i, j, value)` triples in column-major order.
    pub fn iter(&self) -> (r: MatrixIterator<'_>)
        requires
            self.wf(),
        ensures
            r.wf(),
            r.source() == *self,
            r.position() == 0,
            r.position() <= r.source()@.len(),
    {
        let n = self.elems.len();
        MatrixIterator { source: self, index: 0, size: n, rows: self.rows }
    }

    /// Every `(i, j, value)` triple, in the order in which the iterator
    /// gives them.
    pub fn elements(&self) -> (r: Vec<(u32, u32, u64)>)
        requires
            self.wf(),
        ensures
            r@.len() == self.spec_rows() * self.spec_cols(),
            forall|k: int| 0 <= k < r@.len() ==> #[trigger] r@[k] == self.triple(k),
    {
        let mut it = self.iter();
        let mut out: Vec<(u32, u32, u64)> = Vec::new();
        loop
            invariant
                it.wf(),
                it.source() == *self,
                it.position() <= self@.len(),
                out@.len() == it.position(),
                forall|k: int| 0 <= k < out@.len() ==> #[trigger] out@[k] == self.triple(k),
            ensures
                out@.len() == self@.len(),
                forall|k: int| 0 <= k < out@.len() ==> #[trigger] out@[k] == self.triple(k),
            decreases self@.len() - it.position(),
        {
            match it.next() {
                Some(t) => {
                    out.push(t);
                },
                None => {
                    break;
                },
            }
        }
        out
    }
}

/// Column-major iteration over the `(i, j, value)` triples of a matrix.
pub struct MatrixIterator<'a> {
    source: &'a Matrix,
    index: usize,
    size: usize,
    rows: u32,
}

impl<'a> MatrixIterator<'a> {
    pub closed spec fn source(self) -> Matrix {
        *self.source
    }

    /// How many triples have been given.
    pub closed spec fn position(self) -> nat {
        self.index as nat
    }

    pub closed spec fn wf(self) -> bool {
        &&& self.source.wf()
        &&& self.size == self.source@.len()
        &&& self.rows == self.source.rows
        &&& self.index <= self.size
    }

    /// The next triple, or `None` once all `rows * cols` have been given.
    pub fn next(&mut self) -> (r: Option<(u32, u32, u64)>)
        requires
            old(self).wf(),
            old(self).position() <= old(self).source()@.len(),
        ensures
            final(self).wf(),
            final(self).source() == old(self).source(),
            final(self).position() <= final(self).source()@.len(),
            old(self).position() < old(self).source()@.len() ==> {
                &&& final(self).position() == old(self).position() + 1
                &&& r == Some(old(self).source().triple(old(self).position() as int))
            },
            old(self).position() >= old(self).source()@.len() ==> {
                &&& final(self).position() == old(self).position()
                &&& r.is_none()
            },
    {
        if self.index >= self.size {
            return None;
        }
        let k = self.index;
        let rows = self.rows as usize;
        proof {
            if rows == 0 {
                assert(rows * self.source.spec_cols() == 0);
            }
            lemma_traversal_position(rows as int, self.source.spec_cols() as int, k as int);
        }
        let i = k % rows;
        let j = k / rows;
        let v = self.source.elems[k];
        self.index = k + 1;
        Some((i as u32, j as u32, v))
    }
}

impl MatrixView {
    /// The serialized form of the window: its shape and the elements that it
    /// shows, read from `m`, in column-major order.
    pub fn to_record(&self, m: &Matrix) -> (r: MatrixRecord)
        requires
            self.wf(),
            self.view_of(*m),
        ensures
            r.rows == self.desc().rows,
            r.cols == self.desc().cols,
            r.data@.len() == self.desc().len(),
            forall|k: int|
                0 <= k < r.data@.len() ==> #[trigger] r.data@[k] == m@[self.desc().index(
                    k % (self.desc().rows as int),
                    k / (self.desc().rows as int),
                )],
    {
        let (rows, cols) = self.size();
        let mut data: Vec<u64> = Vec::new();
        let mut j: u32 = 0;
        while j < cols
            invariant
                j <= cols,
                rows == self.desc().rows,
                cols == self.desc().cols,
                self.wf(),
                self.view_of(*m),
                data@.len() == j * rows,
                forall|t: int|
                    0 <= t < data@.len() ==> #[trigger] data@[t] == m@[self.desc().index(
                        t % (rows as int),
                        t / (rows as int),
                    )],
            decreases cols - j,
        {
            let mut i: u32 = 0;
            while i < rows
                invariant
                    i <= rows,
                    j < cols,
                    rows == self.desc().rows,
                    cols == self.desc().cols,
                    self.wf(),
                self.view_of(*m),
                    data@.len() == j * rows + i,
                    forall|t: int|
                        0 <= t < data@.len() ==> #[trigger] data@[t] == m@[self.desc().index(
                            t % (rows as int),
                            t / (rows as int),
                        )],
                decreases rows - i,
            {
                let v = self.get(m, i, j);
                proof {
                    lemma_position_div_mod(rows as int, i as int, j as int);
                }
                data.push(v);
                i = i + 1;
            }
            assert(j * rows + rows == (j + 1) * rows) by (nonlinear_arith);
            j = j + 1;
        }
        assert(cols * rows == self.desc().len()) by (nonlinear_arith)
            requires
                rows == self.desc().rows,
                cols == self.desc().cols,
        ;
        MatrixRecord { rows, cols, data }
    }
}

impl VectorView {
    /// The serialized form of the window: the elements that it shows, read
    /// from `m`, in index order.
    pub fn to_record(&self, m: &Matrix) -> (r: VectorRecord)
        requires
            self.wf(),
            self.view_of(*m),
        ensures
            r.vec@.len() == self.desc().len(),
            forall|k: int| 0 <= k < r.vec@.len() ==> #[trigger] r.vec@[k] == m@[self.desc().index_at(k)],
    {
        let n = self.size();
        let mut vec: Vec<u64> = Vec::new();
        let mut k: u32 = 0;
        while k < n
            invariant
                k <= n,
                n == self.desc().len(),
                self.wf(),
                self.wf(),
                self.view_of(*m),
                vec@.len() == k,
                forall|t: int| 0 <= t < k ==> #[trigger] vec@[t] == m@[self.desc().index_at(t)],
            decreases n - k,
        {
            let v = self.get(m, k);
            vec.push(v);
            k = k + 1;
        }
        VectorRecord { vec }
    }
}

impl Dense {
    /// Some element of the window stands at buffer position `p`.
    pub open spec fn covers(self, p: int) -> bool {
        exists|i: int, j: int|
            0 <= i < self.rows && 0 <= j < self.cols && #[trigger] self.index(i, j) == p
    }

    /// The descriptor of the `nrows x ncols` block of the window whose top
    /// left element is `(row, col)`.
    pub open spec fn sub_spec(self, row: int, col: int, nrows: int, ncols: int) -> Dense {
        Dense {
            offset: if nrows == 0 || ncols == 0 {
                self.offset
            } else {
                (self.offset + row + col * self.step) as usize
            },
            step: self.step,
            rows: nrows as usize,
            cols: ncols as usize,
        }
    }

    /// The descriptor of diagonal `k` of the window, as a single row.
    pub open spec fn diag_spec(self, k: int) -> Dense {
        let len = Matrix::diagonal_len(self.rows as int, self.cols as int, k);
        Dense {
            offset: if 0 <= k < self.cols && self.rows > 0 {
                (self.offset + k * self.step) as usize
            } else if k < 0 && -k < self.rows && self.cols > 0 {
                (self.offset - k) as usize
            } else {
                self.offset
            },
            step: if len > 1 {
                (self.step + 1) as usize
            } else {
                1
            },
            rows: 1,
            cols: len as usize,
        }
    }
}

/// Distinct in-bounds positions of a column-major window stand at distinct
/// buffer positions.
pub proof fn lemma_window_injective(d: Dense, a: int, b: int, i: int, j: int)
    requires
        d.step >= d.rows,
        0 <= a < d.rows,
        0 <= i < d.rows,
        0 <= b,
        0 <= j,
        d.index(a, b) == d.index(i, j),
    ensures
        a == i,
        b == j,
{
    lemma_position_unique(d.step as int, a, b, i, j);
}

/// The block of a window at `(row, col)`, within the same buffer.
fn sub_window(d: Dense, Ghost(n): Ghost<int>, row: usize, col: usize, nrows: usize, ncols: usize) -> (w: Dense)
    requires
        d.fits(n),
        n <= usize::MAX,
        row + nrows <= d.rows,
        col + ncols <= d.cols,
    ensures
        w == d.sub_spec(row as int, col as int, nrows as int, ncols as int),
        w.fits(n),
        forall|a: int, b: int|
            0 <= a < nrows && 0 <= b < ncols ==> #[trigger] w.index(a, b) == d.index(
                row + a,
                col + b,
            ),
{
    let offset: usize = if nrows == 0 || ncols == 0 {
        d.offset
    } else {
        assert(0 <= d.index(row as int, col as int) < n);
        assert(0 <= col * d.step) by (nonlinear_arith);
        d.offset + row + col * d.step
    };
    let w = Dense { offset, step: d.step, rows: nrows, cols: ncols };
    proof {
        assert forall|a: int, b: int| 0 <= a < nrows && 0 <= b < ncols implies #[trigger] w.index(
            a,
            b,
        ) == d.index(row + a, col + b) && 0 <= w.index(a, b) < n by {
            assert((col + b) * d.step == col * d.step + b * d.step) by (nonlinear_arith);
            assert(0 <= d.index(row + a, col + b) < n);
        }
    }
    w
}

/// Diagonal `k` of a window, within the same buffer.
fn diag_window(d: Dense, Ghost(n): Ghost<int>, k: i32) -> (w: Dense)
    requires
        d.fits(n),
        n <= usize::MAX,
    ensures
        w == d.diag_spec(k as int),
        w.fits(n),
        w.is_vector(),
        forall|t: int|
            0 <= t < w.cols ==> {
                let p = #[trigger] Matrix::diagonal_pos(k as int, t);
                &&& 0 <= p.0 < d.rows
                &&& 0 <= p.1 < d.cols
                &&& w.index_at(t) == d.index(p.0, p.1)
            },
{
    let rows = d.rows;
    let cols = d.cols;
    let (offset, len): (usize, usize) = if k >= 0 && (k as usize) < cols && rows > 0 {
        let kk = k as usize;
        assert(0 <= d.index(0, kk as int) < n);
        assert(0 <= kk * d.step) by (nonlinear_arith);
        (d.offset + kk * d.step, if rows < cols - kk { rows } else { cols - kk })
    } else if k < 0 && ((-(k as i64)) as usize) < rows && cols > 0 {
        let kk = (-(k as i64)) as usize;
        assert(0 <= d.index(kk as int, 0) < n);
        (d.offset + kk, if rows - kk < cols { rows - kk } else { cols })
    } else {
        (d.offset, 0)
    };
    let step: usize = if len > 1 {
        assert(0 <= d.index(0, 1) < n);
        d.step + 1
    } else {
        1
    };
    let w = Dense { offset, step, rows: 1, cols: len };
    proof {
        assert forall|a: int, t: int| 0 <= a < 1 && 0 <= t < len implies {
            let p = Matrix::diagonal_pos(k as int, t);
            &&& 0 <= p.0 < d.rows
            &&& 0 <= p.1 < d.cols
            &&& #[trigger] w.index(a, t) == d.index(p.0, p.1)
            &&& 0 <= w.index(a, t) < n
        } by {
            let p = Matrix::diagonal_pos(k as int, t);
            if t == 0 {
                assert(w.index(a, t) == offset);
            } else {
                assert(t * step == t * d.step + t) by (nonlinear_arith)
                    requires
                        step == d.step + 1,
                ;
            }
            if k >= 0 {
                assert((t + k) * d.step == t * d.step + k * d.step) by (nonlinear_arith);
            }
            assert(0 <= d.index(p.0, p.1) < n);
        }
        assert forall|t: int| 0 <= t < len implies {
            let p = #[trigger] Matrix::diagonal_pos(k as int, t);
            &&& 0 <= p.0 < d.rows
            &&& 0 <= p.1 < d.cols
            &&& w.index_at(t) == d.index(p.0, p.1)
        } by {
            assert(w.index(0, t) == w.index_at(t));
        }
    }
    w
}

/// Sets every element of window `d` of `m` to a value drawn from `func`;
/// the positions outside the window keep their values.
fn fill_window<F: Fn() -> u64>(m: &mut Matrix, d: Dense, func: F)
    requires
        old(m).wf(),
        d.fits(old(m)@.len() as int),
        call_requires(func, ()),
    ensures
        final(m).wf(),
        final(m).spec_rows() == old(m).spec_rows(),
        final(m).spec_cols() == old(m).spec_cols(),
        forall|a: int, b: int|
            0 <= a < d.rows && 0 <= b < d.cols ==> call_ensures(
                func,
                (),
                #[trigger] final(m)@[d.index(a, b)],
            ),
        forall|p: int|
            0 <= p < old(m)@.len() && !d.covers(p) ==> #[trigger] final(m)@[p] == old(m)@[p],
{
    let n: usize = m.elems.len();
    let mut j: usize = 0;
    while j < d.cols
        invariant
            j <= d.cols,
            n == m@.len(),
            n == old(m)@.len(),
            m.wf(),
            m.spec_rows() == old(m).spec_rows(),
            m.spec_cols() == old(m).spec_cols(),
            d.fits(n as int),
            call_requires(func, ()),
            forall|a: int, b: int|
                0 <= a < d.rows && 0 <= b < j ==> call_ensures(func, (), #[trigger] m@[d.index(a, b)]),
            forall|p: int| 0 <= p < n && !d.covers(p) ==> #[trigger] m@[p] == old(m)@[p],
        decreases d.cols - j,
    {
        let mut i: usize = 0;
        while i < d.rows
            invariant
                i <= d.rows,
                j < d.cols,
                n == m@.len(),
                n == old(m)@.len(),
                m.wf(),
                m.spec_rows() == old(m).spec_rows(),
                m.spec_cols() == old(m).spec_cols(),
                d.fits(n as int),
                call_requires(func, ()),
                forall|a: int, b: int|
                    0 <= a < d.rows && 0 <= b < d.cols && (b < j || (b == j && a < i))
                        ==> call_ensures(func, (), #[trigger] m@[d.index(a, b)]),
                forall|p: int| 0 <= p < n && !d.covers(p) ==> #[trigger] m@[p] == old(m)@[p],
            decreases d.rows - i,
        {
            let v = func();
            let ghost q = d.index(i as int, j as int);
            assert(0 <= q < n);
            assert(0 <= j * d.step) by (nonlinear_arith);
            let pos = d.offset + i + j * d.step;
            m.elems.set(pos, v);
            proof {
                assert forall|a: int, b: int|
                    0 <= a < d.rows && 0 <= b < d.cols && (b < j || (b == j && a < i + 1))
                    implies call_ensures(func, (), #[trigger] m@[d.index(a, b)]) by {
                    if d.index(a, b) == q {
                        lemma_window_injective(d, a, b, i as int, j as int);
                    }
                }
                assert forall|p: int| 0 <= p < n && !d.covers(p) implies #[trigger] m@[p]
                    == old(m)@[p] by {
                    if p == q {
                        assert(d.index(i as int, j as int) == q);
                    }
                }
            }
            i = i + 1;
        }
        j = j + 1;
    }
}

/// Copies the part of window `sd` of `src` that `opts` selects into window
/// `dd` of `dst`, which has the same shape; everything else in `dst` keeps
/// its value.
fn copy_window(src: &Matrix, sd: Dense, dst: &mut Matrix, dd: Dense, opts: CopyOps)
    requires
        src.wf(),
        old(dst).wf(),
        sd.fits(src@.len() as int),
        dd.fits(old(dst)@.len() as int),
        sd.rows == dd.rows,
        sd.cols == dd.cols,
    ensures
        final(dst).wf(),
        final(dst).spec_rows() == old(dst).spec_rows(),
        final(dst).spec_cols() == old(dst).spec_cols(),
        forall|a: int, b: int|
            0 <= a < dd.rows && 0 <= b < dd.cols ==> #[trigger] final(dst)@[dd.index(a, b)]
                == if Matrix::copy_selects(opts, a, b) {
                src@[sd.index(a, b)]
            } else {
                old(dst)@[dd.index(a, b)]
            },
        forall|p: int|
            0 <= p < old(dst)@.len() && !dd.covers(p) ==> #[trigger] final(dst)@[p] == old(
                dst,
            )@[p],
{
    let sn: usize = src.elems.len();
    let n: usize = dst.elems.len();
    let mut j: usize = 0;
    while j < dd.cols
        invariant
            j <= dd.cols,
            sn == src@.len(),
            n == dst@.len(),
            n == old(dst)@.len(),
            dst.wf(),
            dst.spec_rows() == old(dst).spec_rows(),
            dst.spec_cols() == old(dst).spec_cols(),
            sd.fits(sn as int),
            dd.fits(n as int),
            sd.rows == dd.rows,
            sd.cols == dd.cols,
            forall|a: int, b: int|
                0 <= a < dd.rows && 0 <= b < dd.cols ==> #[trigger] dst@[dd.index(a, b)] == if b < j
                    && Matrix::copy_selects(opts, a, b) {
                    src@[sd.index(a, b)]
                } else {
                    old(dst)@[dd.index(a, b)]
                },
            forall|p: int| 0 <= p < n && !dd.covers(p) ==> #[trigger] dst@[p] == old(dst)@[p],
        decreases dd.cols - j,
    {
        let mut i: usize = 0;
        while i < dd.rows
            invariant
                i <= dd.rows,
                j < dd.cols,
                sn == src@.len(),
                n == dst@.len(),
                n == old(dst)@.len(),
                dst.wf(),
                dst.spec_rows() == old(dst).spec_rows(),
                dst.spec_cols() == old(dst).spec_cols(),
                sd.fits(sn as int),
                dd.fits(n as int),
                sd.rows == dd.rows,
                sd.cols == dd.cols,
                forall|a: int, b: int|
                    0 <= a < dd.rows && 0 <= b < dd.cols ==> #[trigger] dst@[dd.index(a, b)] == if (b
                        < j || (b == j && a < i)) && Matrix::copy_selects(opts, a, b) {
                        src@[sd.index(a, b)]
                    } else {
                        old(dst)@[dd.index(a, b)]
                    },
                forall|p: int| 0 <= p < n && !dd.covers(p) ==> #[trigger] dst@[p] == old(dst)@[p],
            decreases dd.rows - i,
        {
            let take = match opts {
                CopyOps::All => true,
                CopyOps::Lower => i >= j,
                CopyOps::Upper => i <= j,
                _ => false,
            };
            if take {
                let ghost sq = sd.index(i as int, j as int);
                let ghost q = dd.index(i as int, j as int);
                assert(0 <= sq < sn);
                assert(0 <= q < n);
                assert(0 <= j * sd.step) by (nonlinear_arith);
                assert(0 <= j * dd.step) by (nonlinear_arith);
                let v = src.elems[sd.offset + i + j * sd.step];
                dst.elems.set(dd.offset + i + j * dd.step, v);
                proof {
                    assert forall|a: int, b: int| 0 <= a < dd.rows && 0 <= b < dd.cols implies #[trigger] dst@[dd.index(
                        a,
                        b,
                    )] == if (b < j || (b == j && a < i + 1)) && Matrix::copy_selects(opts, a, b) {
                        src@[sd.index(a, b)]
                    } else {
                        old(dst)@[dd.index(a, b)]
                    } by {
                        if dd.index(a, b) == q {
                            lemma_window_injective(dd, a, b, i as int, j as int);
                        }
                    }
                    assert forall|p: int| 0 <= p < n && !dd.covers(p) implies #[trigger] dst@[p]
                        == old(dst)@[p] by {
                        if p == q {
                            assert(dd.index(i as int, j as int) == q);
                        }
                    }
                }
            }
            i = i + 1;
        }
        j = j + 1;
    }
}

impl MatrixView {
    /// A view of the `nrows x ncols` block of this window whose top left
    /// element is `(row, col)`. It reaches the same matrix.
    pub fn submatrix(&self, row: u32, col: u32, nrows: u32, ncols: u32) -> (r: MatrixView)
        requires
            self.wf(),
            row as int + nrows as int <= self.desc().rows,
            col as int + ncols as int <= self.desc().cols,
        ensures
            r.wf(),
            r.parent_rows() == self.parent_rows(),
            r.parent_cols() == self.parent_cols(),
            r.desc() == self.desc().sub_spec(row as int, col as int, nrows as int, ncols as int),
            forall|a: int, b: int|
                0 <= a < nrows && 0 <= b < ncols ==> #[trigger] r.desc().index(a, b)
                    == self.desc().index(row + a, col + b),
    {
        let ghost n: int = (self.prows as int) * (self.pcols as int);
        let desc = sub_window(self.desc, Ghost(n), row as usize, col as usize, nrows as usize, ncols as usize);
        MatrixView { desc, prows: self.prows, pcols: self.pcols }
    }

    /// A view of row `i` of this window. It reaches the same matrix.
    pub fn row(&self, i: u32) -> (r: VectorView)
        requires
            self.wf(),
            i < self.desc().rows,
        ensures
            r.wf(),
            r.parent_rows() == self.parent_rows(),
            r.parent_cols() == self.parent_cols(),
            r.desc() == self.desc().sub_spec(i as int, 0, 1, self.desc().cols as int),
            forall|k: int| 0 <= k < self.desc().cols ==> #[trigger] r.desc().index_at(k) == self.desc().index(i as int, k),
    {
        let ghost n: int = (self.prows as int) * (self.pcols as int);
        let desc = sub_window(self.desc, Ghost(n), i as usize, 0, 1, self.desc.cols);
        proof {
            assert forall|k: int| 0 <= k < self.desc().cols implies #[trigger] desc.index_at(k) == self.desc().index(i as int, k) by {
                assert(desc.index(0, k) == self.desc().index(i as int + 0, 0 + k));
            }
        }
        VectorView { desc, prows: self.prows, pcols: self.pcols }
    }

    /// A view of column `j` of this window. It reaches the same matrix.
    pub fn column(&self, j: i32) -> (r: VectorView)
        requires
            self.wf(),
            0 <= j < self.desc().cols,
        ensures
            r.wf(),
            r.parent_rows() == self.parent_rows(),
            r.parent_cols() == self.parent_cols(),
            r.desc() == self.desc().sub_spec(0, j as int, self.desc().rows as int, 1),
            forall|k: int| 0 <= k < self.desc().rows ==> #[trigger] r.desc().index_at(k) == self.desc().index(k, j as int),
    {
        let ghost n: int = (self.prows as int) * (self.pcols as int);
        let desc = sub_window(self.desc, Ghost(n), 0, j as usize, self.desc.rows, 1);
        proof {
            assert(desc.len() == desc.rows) by (nonlinear_arith)
                requires
                    desc.cols == 1,
                    desc.len() == desc.rows * desc.cols,
            ;
            assert forall|k: int| 0 <= k < self.desc().rows implies #[trigger] desc.index_at(k) == self.desc().index(k, j as int) by {
                if desc.rows == 1 {
                    assert(k == 0);
                    assert(desc.index(0, 0) == self.desc().index(0int, j as int));
                } else {
                    assert(desc.index(k, 0) == self.desc().index(k, j as int));
                }
            }
        }
        VectorView { desc, prows: self.prows, pcols: self.pcols }
    }

    /// A view of diagonal `k` of this window: the main diagonal for `k == 0`,
    /// superdiagonals for `k > 0`, subdiagonals for `k < 0`. It reaches the
    /// same matrix.
    pub fn diagonal(&self, k: i32) -> (r: VectorView)
        requires
            self.wf(),
        ensures
            r.wf(),
            r.parent_rows() == self.parent_rows(),
            r.parent_cols() == self.parent_cols(),
            r.desc() == self.desc().diag_spec(k as int),
            forall|t: int|
                0 <= t < r.desc().cols ==> {
                    let p = #[trigger] Matrix::diagonal_pos(k as int, t);
                    &&& 0 <= p.0 < self.desc().rows
                    &&& 0 <= p.1 < self.desc().cols
                    &&& r.desc().index_at(t) == self.desc().index(p.0, p.1)
                },
    {
        let ghost n: int = (self.prows as int) * (self.pcols as int);
        let desc = diag_window(self.desc, Ghost(n), k);
        proof {
            assert(desc.len() == desc.cols) by (nonlinear_arith)
                requires
                    desc.rows == 1,
                    desc.len() == desc.rows * desc.cols,
            ;
        }
        VectorView { desc, prows: self.prows, pcols: self.pcols }
    }

    /// Sets every element of the window, in `m`, to a value drawn from
    /// `func`. The elements of `m` outside the window keep their values.
    pub fn set_all<F: Fn() -> u64>(&self, m: &mut Matrix, func: F)
        requires
            self.wf(),
            self.view_of(*old(m)),
            call_requires(func, ()),
        ensures
            self.view_of(*final(m)),
            forall|a: int, b: int|
                0 <= a < self.desc().rows && 0 <= b < self.desc().cols ==> call_ensures(
                    func,
                    (),
                    #[trigger] final(m)@[self.desc().index(a, b)],
                ),
            forall|p: int|
                0 <= p < old(m)@.len() && !self.desc().covers(p) ==> #[trigger] final(m)@[p] == old(
                    m,
                )@[p],
    {
        fill_window(m, self.desc, func);
    }

    /// Copies the part of this window of `m` that `opts` selects into the
    /// window `dst` of `dm`, which must have the same shape. The other
    /// elements of `dm` keep their values. A shape mismatch is `ESize`; the
    /// symmetric and unit diagonal selections are the kernel's copy (`EImp`
    /// here). On error `dm` is unchanged.
    pub fn copy_to(&self, m: &Matrix, dst: &MatrixView, dm: &mut Matrix, opts: CopyOps) -> (r: Result<(), Error>)
        requires
            self.wf(),
            self.view_of(*m),
            dst.wf(),
            dst.view_of(*old(dm)),
        ensures
            dst.view_of(*final(dm)),
            r == if self.desc().rows != dst.desc().rows || self.desc().cols != dst.desc().cols {
                Err::<(), Error>(Error::ESize)
            } else if opts == CopyOps::Symm || opts == CopyOps::Unit {
                Err(Error::EImp)
            } else {
                Ok(())
            },
            r.is_err() ==> *final(dm) == *old(dm),
            r.is_ok() ==> forall|a: int, b: int|
                0 <= a < dst.desc().rows && 0 <= b < dst.desc().cols ==> #[trigger] final(dm)@[dst.desc().index(a, b)]
                    == if Matrix::copy_selects(opts, a, b) {
                    m@[self.desc().index(a, b)]
                } else {
                    old(dm)@[dst.desc().index(a, b)]
                },
            r.is_ok() ==> forall|p: int|
                0 <= p < old(dm)@.len() && !dst.desc().covers(p) ==> #[trigger] final(dm)@[p] == old(
                    dm,
                )@[p],
    {
        if self.desc.rows != dst.desc.rows || self.desc.cols != dst.desc.cols {
            return Err(Error::ESize);
        }
        match opts {
            CopyOps::Symm | CopyOps::Unit => {
                return Err(Error::EImp);
            },
            _ => {},
        }
        copy_window(m, self.desc, dm, dst.desc, opts);
        Ok(())
    }

    /// A new owning matrix with the shape of the window and the elements that
    /// it shows in `m`.
    pub fn to_matrix(&self, m: &Matrix) -> (r: Matrix)
        requires
            self.wf(),
            self.view_of(*m),
        ensures
            r.wf(),
            r.spec_rows() == self.desc().rows,
            r.spec_cols() == self.desc().cols,
            forall|a: int, b: int| r.in_bounds(a, b) ==> #[trigger] r.elem(a, b) == m@[self.desc().index(a, b)],
    {
        let rec = self.to_record(m);
        let ghost data = rec.data@;
        let r = Matrix::new_from(rec.rows, rec.cols, rec.data);
        proof {
            let rows = self.desc().rows as int;
            assert(data.subrange(0, data.len() as int) =~= data);
            assert(r@ == data);
            assert forall|a: int, b: int| r.in_bounds(a, b) implies #[trigger] r.elem(a, b) == m@[self.desc().index(a, b)] by {
                lemma_position_in_bounds(rows, self.desc().cols as int, a, b);
                lemma_position_div_mod(rows, a, b);
            }
        }
        r
    }

    /// Every `(i, j, value)` triple of the window, read from `m`, in
    /// column-major order.
    pub fn elements(&self, m: &Matrix) -> (r: Vec<(u32, u32, u64)>)
        requires
            self.wf(),
            self.view_of(*m),
        ensures
            r@.len() == self.desc().len(),
            forall|k: int|
                0 <= k < r@.len() ==> {
                    let i = k % (self.desc().rows as int);
                    let j = k / (self.desc().rows as int);
                    #[trigger] r@[k] == (i as u32, j as u32, m@[self.desc().index(i, j)])
                },
    {
        let rec = self.to_record(m);
        let rows = rec.rows as usize;
        let n = rec.data.len();
        let mut out: Vec<(u32, u32, u64)> = Vec::new();
        let mut k: usize = 0;
        while k < n
            invariant
                k <= n,
                n == rec.data@.len(),
                rows == self.desc().rows,
                rec.rows == self.desc().rows,
                rec.cols == self.desc().cols,
                n == self.desc().len(),
                self.desc().cols <= u32::MAX,
                forall|t: int|
                    0 <= t < n ==> #[trigger] rec.data@[t] == m@[self.desc().index(
                        t % (rows as int),
                        t / (rows as int),
                    )],
                out@.len() == k,
                forall|t: int|
                    0 <= t < k ==> {
                        let i = t % (rows as int);
                        let j = t / (rows as int);
                        #[trigger] out@[t] == (i as u32, j as u32, m@[self.desc().index(i, j)])
                    },
            decreases n - k,
        {
            proof {
                if rows == 0 {
                    assert(rows * self.desc().cols == 0);
                }
                lemma_traversal_position(rows as int, self.desc().cols as int, k as int);
            }
            let t = ((k % rows) as u32, (k / rows) as u32, rec.data[k]);
            out.push(t);
            k = k + 1;
        }
        out
    }
}

impl VectorView {
    /// Sets every element of the window, in `m`, to a value drawn from
    /// `func`. The elements of `m` outside the window keep their values.
    pub fn set_all<F: Fn() -> u64>(&self, m: &mut Matrix, func: F)
        requires
            self.wf(),
            self.view_of(*old(m)),
            call_requires(func, ()),
        ensures
            self.view_of(*final(m)),
            forall|k: int|
                0 <= k < self.desc().len() ==> call_ensures(
                    func,
                    (),
                    #[trigger] final(m)@[self.desc().index_at(k)],
                ),
            forall|p: int|
                0 <= p < old(m)@.len() && !self.desc().covers(p) ==> #[trigger] final(m)@[p] == old(
                    m,
                )@[p],
    {
        fill_window(m, self.desc, func);
        proof {
            let d = self.desc();
            assert forall|k: int| 0 <= k < d.len() implies call_ensures(
                func,
                (),
                #[trigger] m@[d.index_at(k)],
            ) by {
                if d.rows == 1 {
                    assert(d.len() == d.cols) by (nonlinear_arith)
                        requires
                            d.rows == 1,
                            d.len() == d.rows * d.cols,
                    ;
                    assert(call_ensures(func, (), m@[d.index(0, k)]));
                } else {
                    assert(d.len() == d.rows) by (nonlinear_arith)
                        requires
                            d.cols == 1,
                            d.len() == d.rows * d.cols,
                    ;
                    assert(call_ensures(func, (), m@[d.index(k, 0)]));
                }
            }
        }
    }

    /// A new owning vector holding the elements that the window shows in `m`.
    pub fn to_vector(&self, m: &Matrix) -> (r: Vector)
        requires
            self.wf(),
            self.view_of(*m),
        ensures
            r.wf(),
            r@.len() == self.desc().len(),
            forall|k: int| 0 <= k < r@.len() ==> #[trigger] r@[k] == m@[self.desc().index_at(k)],
    {
        let rec = self.to_record(m);
        Vector::new_from(rec.vec)
    }
}

impl Clone for Matrix {
    /// A new owning matrix with the same shape and elements.
    fn clone(&self) -> (r: Matrix)
        ensures
            r.contents() == self.contents(),
    {
        let elems = self.elems.clone();
        assert(elems@ =~= self.elems@);
        Matrix { elems, rows: self.rows, cols: self.cols }
    }
}

} // verus!
