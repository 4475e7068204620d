use vstd::prelude::*;

use crate::dense::{lemma_position_div_mod, lemma_position_in_bounds, lemma_traversal_position, Matrix};

verus! {

/// Views alias their parent: element `j` of the view of row `i` and element
/// `i` of the view of column `j` stand at the storage position of `(i, j)`,
/// and element `i` of the main diagonal at that of `(i, i)`. So what a view
/// reads is the parent's element.
pub proof fn lemma_views_alias(m: Matrix, i: int, j: int)
    requires
        m.wf(),
        m.in_bounds(i, j),
    ensures
        m.row_desc(i).index_at(j) == m.pos(i, j),
        m.column_desc(j).index_at(i) == m.pos(i, j),
        i < m.spec_cols() ==> m.diagonal_desc(0).index_at(i) == m.pos(i, i),
{
    let rows = m.spec_rows() as int;
    let cols = m.spec_cols() as int;
    lemma_position_in_bounds(rows, cols, i, j);
    lemma_position_in_bounds(rows, cols, 0, j);
    assert(rows <= u32::MAX);
    assert(m.row_desc(i).step == rows);
    assert(m.row_desc(i).offset == i);
    assert(m.row_desc(i).index_at(j) == m.pos(i, j));
    assert(m.column_desc(j).step == rows);
    assert(m.column_desc(j).rows == rows);
    assert(m.column_desc(j).offset == j * rows);
    if rows == 1 {
        assert(i == 0);
    }
    assert(m.column_desc(j).index_at(i) == m.pos(i, j));
    if i < cols {
        let d = m.diagonal_desc(0);
        let len = Matrix::diagonal_len(rows, cols, 0);
        assert(d.offset == 0);
        if i > 0 {
            assert(len > 1);
            assert(rows + 1 <= rows * cols) by (nonlinear_arith)
                requires
                    rows >= 2,
                    cols >= 2,
            ;
            assert(d.step == rows + 1);
            assert(d.index_at(i) == i * (rows + 1));
            assert(i * (rows + 1) == i + i * rows) by (nonlinear_arith);
        } else {
            assert(d.index_at(0) == 0 * d.step);
            assert(0 * d.step == 0 && 0 * rows == 0) by (nonlinear_arith);
        }
    }
}

/// A write through the view of row `i` at `j`, through the view of column
/// `j` at `i`, or (for `i == j`) through the main diagonal at `i`, is seen by
/// the parent: its element `(i, j)` reads back the written value and every
/// other element keeps its value.
pub proof fn lemma_view_write_visible(before: Matrix, after: Matrix, i: int, j: int, value: u64)
    requires
        before.wf(),
        before.in_bounds(i, j),
        after.spec_rows() == before.spec_rows(),
        after.spec_cols() == before.spec_cols(),
        after@ == before@.update(before.row_desc(i).index_at(j), value) || after@
            == before@.update(before.column_desc(j).index_at(i), value) || (i == j && after@
            == before@.update(before.diagonal_desc(0).index_at(i), value)),
    ensures
        after.elem(i, j) == value,
        forall|a: int, b: int|
            before.in_bounds(a, b) && (a, b) != (i, j) ==> #[trigger] after.elem(a, b)
                == before.elem(a, b),
{
    lemma_views_alias(before, i, j);
    lemma_position_in_bounds(before.spec_rows() as int, before.spec_cols() as int, i, j);
    assert forall|a: int, b: int|
        before.in_bounds(a, b) && (a, b) != (i, j) implies #[trigger] after.elem(a, b)
        == before.elem(a, b) by {
        lemma_position_in_bounds(before.spec_rows() as int, before.spec_cols() as int, a, b);
        lemma_position_div_mod(before.spec_rows() as int, a, b);
        lemma_position_div_mod(before.spec_rows() as int, i, j);
    }
}

/// Serializing a matrix and building a matrix from that form gives back the
/// same shape and the same elements.
pub proof fn lemma_record_round_trip(m: Matrix)
    requires
        m.wf(),
    ensures
        Matrix::from_buffer_spec(m.contents().0, m.contents().1, m.contents().2) == m.contents(),
{
    assert(m@.subrange(0, m@.len() as int) =~= m@);
}

/// The `k`-th triple of the column-major traversal is an in-bounds position
/// whose storage offset is `k`, so iteration visits the elements in the order
/// in which they are serialized.
pub proof fn lemma_traversal_order(m: Matrix, k: int)
    requires
        m.wf(),
        0 <= k < m@.len(),
    ensures
        m.in_bounds(m.triple(k).0 as int, m.triple(k).1 as int),
        m.pos(m.triple(k).0 as int, m.triple(k).1 as int) == k,
        m.triple(k).2 == m@[k],
{
    let rows = m.spec_rows() as int;
    if rows == 0 {
        assert(rows * m.spec_cols() == 0);
    }
    lemma_traversal_position(rows, m.spec_cols() as int, k);
    assert(rows <= u32::MAX);
    assert((k % rows) as u32 as int == k % rows);
    assert(k / rows < m.spec_cols());
    assert((k / rows) as u32 as int == k / rows);
}

} // verus!
