use armas::{CopyOps, Error, Matrix, MatrixRecord};

fn one() -> u64 {
    1.0f64.to_bits()
}

fn value(m: &Matrix, i: u32, j: u32) -> f64 {
    f64::from_bits(m.get(i, j))
}

#[test]
fn test_create() {
    let mat = Matrix::new(5, 5);
    let (rows, cols) = mat.size();
    assert_eq!(rows, 5);
    assert_eq!(cols, 5);
    assert_eq!(value(&mat, 0, 0), 0.0);
    assert_eq!(value(&mat, 4, 4), 0.0);
}

#[test]
fn test_views() {
    let mut mat = Matrix::new(5, 5);
    let d = mat.diagonal(0);
    assert_eq!(d.size(), 5);

    mat.set(3, 3, 5.0f64.to_bits());
    assert_eq!(value(&mat, 3, 3), 5.0);
    assert_eq!(f64::from_bits(d.get(&mat, 3)), 5.0);

    let r = mat.row(3);
    assert_eq!(f64::from_bits(r.get(&mat, 3)), 5.0);

    let c = mat.column(3);
    assert_eq!(f64::from_bits(c.get(&mat, 3)), 5.0);

    d.set(&mut mat, 3, 10.0f64.to_bits());
    assert_eq!(value(&mat, 3, 3), 10.0);
}

#[test]
fn test_set_all() {
    let mut m = Matrix::new(5, 4);
    m.set_all(one);
    assert_eq!(value(&m, 0, 0), 1.0);
    assert_eq!(value(&m, 4, 3), 1.0);
}

#[test]
fn set_all_fills_every_element() {
    let mut m = Matrix::new(5, 4);
    m.set_all(|| 1.0f64.to_bits());
    for (_, _, v) in m.elements() {
        assert_eq!(f64::from_bits(v), 1.0);
    }
}

#[test]
fn new_is_zero_everywhere() {
    let m = Matrix::new(3, 7);
    assert_eq!(m.size(), (3, 7));
    assert_eq!(m.as_slice().len(), 21);
    for i in 0..3 {
        for j in 0..7 {
            assert_eq!(m.get(i, j), 0);
        }
    }
}

#[test]
fn new_with_no_rows_or_columns() {
    let m = Matrix::new(0, 4);
    assert_eq!(m.size(), (0, 4));
    assert_eq!(m.elements().len(), 0);
    let e = Matrix::new(0, 0);
    assert_eq!(e.as_slice().len(), 0);
}

#[test]
fn set_changes_one_element_only() {
    let mut m = Matrix::new(4, 3);
    m.set(2, 1, 7.5f64.to_bits());
    for i in 0..4 {
        for j in 0..3 {
            let expected = if (i, j) == (2, 1) { 7.5 } else { 0.0 };
            assert_eq!(value(&m, i, j), expected);
        }
    }
    assert_eq!(m.as_slice()[2 + 4], 7.5f64.to_bits());
}

#[test]
fn row_and_column_views_alias_the_parent() {
    let mut m = Matrix::new(3, 4);
    for i in 0..3u32 {
        for j in 0..4u32 {
            m.set(i, j, (10 * i + j) as u64);
        }
    }
    let r = m.row(2);
    assert_eq!(r.size(), 4);
    for j in 0..4u32 {
        assert_eq!(r.get(&m, j), m.get(2, j));
    }
    let c = m.column(1);
    assert_eq!(c.size(), 3);
    for i in 0..3u32 {
        assert_eq!(c.get(&m, i), m.get(i, 1));
    }
    r.set(&mut m, 1, 99);
    assert_eq!(m.get(2, 1), 99);
    c.set(&mut m, 0, 98);
    assert_eq!(m.get(0, 1), 98);
}

#[test]
fn off_diagonals() {
    let mut m = Matrix::new(3, 4);
    for i in 0..3u32 {
        for j in 0..4u32 {
            m.set(i, j, (10 * i + j) as u64);
        }
    }
    let sup = m.diagonal(1);
    assert_eq!(sup.size(), 3);
    assert_eq!(sup.get(&m, 0), 1);
    assert_eq!(sup.get(&m, 1), 12);
    assert_eq!(sup.get(&m, 2), 23);
    let far = m.diagonal(3);
    assert_eq!(far.size(), 1);
    assert_eq!(far.get(&m, 0), 3);
    let sub = m.diagonal(-1);
    assert_eq!(sub.size(), 2);
    assert_eq!(sub.get(&m, 0), 10);
    assert_eq!(sub.get(&m, 1), 21);
    assert_eq!(m.diagonal(4).size(), 0);
    assert_eq!(m.diagonal(-3).size(), 0);
    let main = m.diagonal(0);
    assert_eq!(main.size(), 3);
    assert_eq!(main.descriptor().step, 4);
    main.set(&mut m, 2, 5);
    assert_eq!(m.get(2, 2), 5);
}

#[test]
fn submatrix_views_alias_the_parent() {
    let mut m = Matrix::new(4, 4);
    for i in 0..4u32 {
        for j in 0..4u32 {
            m.set(i, j, (10 * i + j) as u64);
        }
    }
    let s = m.submatrix(1, 2, 2, 2);
    assert_eq!(s.size(), (2, 2));
    assert_eq!(s.get(&m, 0, 0), 12);
    assert_eq!(s.get(&m, 1, 1), 23);
    let d = s.descriptor();
    assert_eq!((d.offset, d.step, d.rows, d.cols), (9, 4, 2, 2));
    s.set(&mut m, 1, 0, 77);
    assert_eq!(m.get(2, 2), 77);

    let rec = s.to_record(&m);
    assert_eq!((rec.rows, rec.cols), (2, 2));
    assert_eq!(rec.data, vec![12, 77, 13, 23]);
}

#[test]
fn iteration_is_column_major() {
    let mut m = Matrix::new(4, 3);
    for i in 0..4u32 {
        for j in 0..3u32 {
            m.set(i, j, (10 * i + j) as u64);
        }
    }
    let all = m.elements();
    assert_eq!(all.len(), 12);
    for (k, t) in all.iter().enumerate() {
        let k = k as u32;
        assert_eq!(*t, (k % 4, k / 4, (10 * (k % 4) + k / 4) as u64));
    }
    let mut it = m.iter();
    let mut count = 0;
    while let Some((i, j, _)) = it.next() {
        assert!(i < 4 && j < 3);
        count += 1;
    }
    assert_eq!(count, 12);
    assert!(it.next().is_none());
}

#[test]
fn record_round_trip() {
    let mut m = Matrix::new(3, 2);
    let mut x = 1.0f64;
    for j in 0..2u32 {
        for i in 0..3u32 {
            m.set(i, j, x.to_bits());
            x += 1.0;
        }
    }
    let rec = m.to_record();
    assert_eq!((rec.rows, rec.cols), (3, 2));
    let data: Vec<f64> = rec.data.iter().map(|b| f64::from_bits(*b)).collect();
    assert_eq!(data, vec![1.0, 2.0, 3.0, 4.0, 5.0, 6.0]);
    let back = Matrix::from_record(rec);
    assert_eq!(back.size(), m.size());
    for i in 0..3u32 {
        for j in 0..2u32 {
            assert_eq!(back.get(i, j), m.get(i, j));
        }
    }
}

#[test]
fn record_with_too_little_data_is_empty() {
    let rec = MatrixRecord { rows: 2, cols: 2, data: vec![1, 2, 3] };
    let m = Matrix::from_record(rec);
    assert_eq!(m.size(), (0, 0));
}

#[test]
fn buffer_of_exact_size_is_accepted() {
    let m = Matrix::new_from(2, 3, vec![1, 2, 3, 4, 5, 6]);
    assert_eq!(m.size(), (2, 3));
    assert_eq!(m.get(1, 2), 6);
    let longer = Matrix::new_from(2, 2, vec![1, 2, 3, 4, 5]);
    assert_eq!(longer.size(), (2, 2));
    assert_eq!(longer.as_slice(), &[1, 2, 3, 4]);
    let short = Matrix::new_from(2, 2, vec![1, 2, 3]);
    assert_eq!(short.size(), (0, 0));
}

#[test]
fn from_vector_copies_the_prefix() {
    let buf = vec![4, 5, 6, 7, 8];
    let m = Matrix::from_vector(2, 2, &buf);
    assert_eq!(m.size(), (2, 2));
    assert_eq!(m.get(0, 1), 6);
    let short = Matrix::from_vector(3, 2, &buf);
    assert_eq!(short.size(), (0, 0));
}

#[test]
fn copy_all_lower_upper() {
    let mut src = Matrix::new(3, 3);
    src.set_all(|| 1);
    let mut dst = Matrix::new(3, 3);
    assert_eq!(src.copy_to(&mut dst, CopyOps::Lower), Ok(()));
    for i in 0..3u32 {
        for j in 0..3u32 {
            assert_eq!(dst.get(i, j), if i >= j { 1 } else { 0 });
        }
    }
    let mut up = Matrix::new(3, 3);
    assert_eq!(src.copy_to(&mut up, CopyOps::Upper), Ok(()));
    for i in 0..3u32 {
        for j in 0..3u32 {
            assert_eq!(up.get(i, j), if i <= j { 1 } else { 0 });
        }
    }
    let mut all = Matrix::new(3, 3);
    assert_eq!(src.copy_to(&mut all, CopyOps::All), Ok(()));
    assert_eq!(all.as_slice(), src.as_slice());
}

#[test]
fn copy_errors_leave_destination_alone() {
    let src = Matrix::new(2, 3);
    let mut dst = Matrix::new(3, 2);
    dst.set(0, 0, 9);
    assert_eq!(src.copy_to(&mut dst, CopyOps::All), Err(Error::ESize));
    assert_eq!(dst.get(0, 0), 9);
    let mut same = Matrix::new(2, 3);
    same.set(1, 1, 4);
    assert_eq!(src.copy_to(&mut same, CopyOps::Symm), Err(Error::EImp));
    assert_eq!(src.copy_to(&mut same, CopyOps::Unit), Err(Error::EImp));
    assert_eq!(same.get(1, 1), 4);
}

#[test]
fn clone_is_independent() {
    let mut m = Matrix::new(2, 2);
    m.set(1, 0, 3);
    let mut c = m.clone();
    assert_eq!(c.get(1, 0), 3);
    c.set(1, 0, 4);
    assert_eq!(m.get(1, 0), 3);
}

#[test]
fn mutable_storage_reaches_elements() {
    let mut m = Matrix::new(2, 2);
    m.as_mut_slice()[3] = 8;
    assert_eq!(m.get(1, 1), 8);
}

fn numbered(rows: u32, cols: u32) -> Matrix {
    let mut m = Matrix::new(rows, cols);
    for i in 0..rows {
        for j in 0..cols {
            m.set(i, j, (10 * i + j) as u64);
        }
    }
    m
}

#[test]
fn views_of_views_reach_the_parent() {
    let mut m = numbered(5, 5);
    let s = m.submatrix(1, 1, 3, 3);
    let t = s.submatrix(1, 0, 2, 2);
    assert_eq!(t.get(&m, 0, 0), 21);
    assert_eq!(t.get(&m, 1, 1), 32);
    let r = s.row(2);
    assert_eq!(r.to_record(&m).vec, vec![31, 32, 33]);
    let c = s.column(0);
    assert_eq!(c.to_record(&m).vec, vec![11, 21, 31]);
    let d = s.diagonal(0);
    assert_eq!(d.to_record(&m).vec, vec![11, 22, 33]);
    let up = s.diagonal(1);
    assert_eq!(up.to_record(&m).vec, vec![12, 23]);
    let down = s.diagonal(-2);
    assert_eq!(down.to_record(&m).vec, vec![31]);
    assert_eq!(s.diagonal(3).size(), 0);
    t.set(&mut m, 1, 0, 7);
    assert_eq!(m.get(3, 1), 7);
}

#[test]
fn view_set_all_leaves_the_rest() {
    let mut m = numbered(4, 4);
    let s = m.submatrix(1, 1, 2, 2);
    s.set_all(&mut m, || 5);
    for i in 0..4u32 {
        for j in 0..4u32 {
            let inside = (1..3).contains(&i) && (1..3).contains(&j);
            assert_eq!(m.get(i, j), if inside { 5 } else { (10 * i + j) as u64 });
        }
    }
    let d = m.diagonal(0);
    d.set_all(&mut m, || 9);
    assert_eq!(m.get(0, 0), 9);
    assert_eq!(m.get(3, 3), 9);
    assert_eq!(m.get(0, 1), 1);
}

#[test]
fn view_copy_between_matrices() {
    let src = numbered(3, 3);
    let mut dst = Matrix::new(4, 4);
    let sv = src.submatrix(0, 0, 2, 2);
    let dv = dst.submatrix(2, 2, 2, 2);
    assert_eq!(sv.copy_to(&src, &dv, &mut dst, CopyOps::All), Ok(()));
    assert_eq!(dst.get(2, 2), 0);
    assert_eq!(dst.get(3, 2), 10);
    assert_eq!(dst.get(2, 3), 1);
    assert_eq!(dst.get(3, 3), 11);
    assert_eq!(dst.get(0, 0), 0);

    let mut low = Matrix::new(4, 4);
    let lv = low.submatrix(0, 0, 2, 2);
    assert_eq!(sv.copy_to(&src, &lv, &mut low, CopyOps::Lower), Ok(()));
    assert_eq!(low.get(1, 0), 10);
    assert_eq!(low.get(0, 1), 0);

    let wide = dst.submatrix(0, 0, 2, 3);
    assert_eq!(sv.copy_to(&src, &wide, &mut dst, CopyOps::All), Err(Error::ESize));
    assert_eq!(sv.copy_to(&src, &dv, &mut dst, CopyOps::Symm), Err(Error::EImp));
}

#[test]
fn view_clones_and_iteration() {
    let m = numbered(4, 3);
    let s = m.submatrix(1, 1, 3, 2);
    let owned = s.to_matrix(&m);
    assert_eq!(owned.size(), (3, 2));
    assert_eq!(owned.get(0, 0), 11);
    assert_eq!(owned.get(2, 1), 32);
    let all = s.elements(&m);
    assert_eq!(all.len(), 6);
    assert_eq!(all[0], (0, 0, 11));
    assert_eq!(all[2], (2, 0, 31));
    assert_eq!(all[3], (0, 1, 12));
    let v = m.row(2).to_vector(&m);
    assert_eq!(v.as_slice(), &[20, 21, 22]);
}

#[test]
fn views_know_their_parent_shape() {
    let m = Matrix::new(3, 4);
    let other = Matrix::new(4, 3);
    let s = m.submatrix(0, 0, 2, 2);
    assert!(s.is_view_of(&m));
    assert!(!s.is_view_of(&other));
    let r = m.row(1);
    assert!(r.is_view_of(&m));
    assert!(!r.is_view_of(&other));
}
