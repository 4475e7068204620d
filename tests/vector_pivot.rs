use armas::{Error, Matrix, Pivot, Vector, VectorRecord};

#[test]
fn vector_new_is_zero() {
    let v = Vector::new(4);
    assert_eq!(v.size(), 4);
    for k in 0..4 {
        assert_eq!(f64::from_bits(v.get(k)), 0.0);
    }
}

#[test]
fn vector_set_get() {
    let mut v = Vector::new(3);
    v.set(1, 2.5f64.to_bits());
    assert_eq!(f64::from_bits(v.get(1)), 2.5);
    assert_eq!(v.get(0), 0);
    assert_eq!(v.get(2), 0);
}

#[test]
fn vector_copy() {
    let src = Vector::new_from(vec![1, 2, 3]);
    let mut dst = Vector::new(3);
    assert_eq!(src.copy_to(&mut dst), Ok(()));
    assert_eq!(dst.as_slice(), &[1, 2, 3]);
    let mut short = Vector::new(2);
    assert_eq!(src.copy_to(&mut short), Err(Error::ESize));
    assert_eq!(short.as_slice(), &[0, 0]);
}

#[test]
fn vector_iteration_and_record() {
    let v = Vector::new_from(vec![5, 6, 7]);
    let mut it = v.iter();
    assert_eq!(it.next(), Some((0, 5)));
    assert_eq!(it.next(), Some((1, 6)));
    assert_eq!(it.next(), Some((2, 7)));
    assert_eq!(it.next(), None);
    let rec = v.to_record();
    assert_eq!(rec.vec, vec![5, 6, 7]);
    let back = Vector::from_record(rec);
    assert_eq!(back.as_slice(), v.as_slice());
    let c = v.clone();
    assert_eq!(c.as_slice(), &[5, 6, 7]);
    let e = Vector::from_record(VectorRecord { vec: vec![] });
    assert_eq!(e.size(), 0);
}

#[test]
fn vector_view_record_follows_the_view() {
    let mut m = Matrix::new(3, 3);
    for i in 0..3u32 {
        for j in 0..3u32 {
            m.set(i, j, (10 * i + j) as u64);
        }
    }
    assert_eq!(m.row(1).to_record(&m).vec, vec![10, 11, 12]);
    assert_eq!(m.column(2).to_record(&m).vec, vec![2, 12, 22]);
    assert_eq!(m.diagonal(0).to_record(&m).vec, vec![0, 11, 22]);
}

#[test]
fn pivot_table() {
    let mut p = Pivot::new(4);
    assert_eq!(p.size(), 4);
    assert_eq!(p.as_slice(), &[0, 0, 0, 0]);
    p.set(2, 3);
    assert_eq!(p.get(2), 3);
    p.as_mut_slice()[0] = 1;
    assert_eq!(p.get(0), 1);
}
