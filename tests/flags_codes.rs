use armas::common::{check_error_slot, check_index, check_status};
use armas::flags::op_bits;
use armas::{CopyOps, Error, Norms, OpCodes, PivotOps};

#[test]
fn flag_words() {
    assert_eq!(OpCodes::new(OpCodes::NOTRANS).bits(), 0);
    assert_eq!(OpCodes::new(OpCodes::LOWER).bits(), 1);
    assert_eq!(OpCodes::new(OpCodes::UPPER).bits(), 2);
    assert_eq!(OpCodes::new(OpCodes::SYMM).bits(), 4);
    assert_eq!(OpCodes::new(OpCodes::HERM).bits(), 8);
    assert_eq!(OpCodes::new(OpCodes::UNIT).bits(), 16);
    assert_eq!(OpCodes::new(OpCodes::LEFT).bits(), 32);
    assert_eq!(OpCodes::new(OpCodes::RIGHT).bits(), 64);
    assert_eq!(OpCodes::new(OpCodes::TRANSA).bits(), 128);
    assert_eq!(OpCodes::new(OpCodes::TRANS).bits(), 128);
    assert_eq!(OpCodes::new(OpCodes::TRANSB).bits(), 256);
    assert_eq!(OpCodes::new(OpCodes::CTRANSA).bits(), 512);
    assert_eq!(OpCodes::new(OpCodes::CTRANSB).bits(), 1024);
    assert_eq!(OpCodes::new(OpCodes::MULTQ).bits(), 2048);
    assert_eq!(OpCodes::new(OpCodes::MULTP).bits(), 4096);
    assert_eq!(OpCodes::new(OpCodes::WANTQ).bits(), 8192);
    assert_eq!(OpCodes::new(OpCodes::WANTP).bits(), 16384);
    assert_eq!(OpCodes::new(OpCodes::WANTU).bits(), 32768);
    assert_eq!(OpCodes::new(OpCodes::WANTV).bits(), 65536);
    assert_eq!(OpCodes::new(OpCodes::FORWARD).bits(), 131072);
    assert_eq!(OpCodes::new(OpCodes::BACKWARD).bits(), 262144);
    assert_eq!(OpCodes::new(OpCodes::ABSA).bits(), 524288);
    assert_eq!(OpCodes::new(OpCodes::ABSB).bits(), 1048576);
    assert_eq!(OpCodes::new(OpCodes::CONJA).bits(), 2097152);
    assert_eq!(OpCodes::new(OpCodes::CONJB).bits(), 4194304);
    assert_eq!(OpCodes::new(OpCodes::HHNEGATIVE).bits(), 8388608);
    assert_eq!(OpCodes::new(OpCodes::NONNEG).bits(), 16777216);
    assert_eq!(OpCodes::all().bits(), 0x1ff_ffff);
    assert!(OpCodes::empty().is_empty());
}

#[test]
fn flag_algebra() {
    let ta = OpCodes::new(OpCodes::TRANSA);
    let tb = OpCodes::new(OpCodes::TRANSB);
    let both = ta.union(tb);
    assert_eq!(both.bits(), 384);
    assert!(both.contains(ta));
    assert!(!ta.contains(both));
    assert!(both.intersects(tb));
    assert!(!ta.intersects(tb));
    assert_eq!(both.intersection(tb), tb);
    assert_eq!(both.difference(tb), ta);
    let mut f = OpCodes::empty();
    f.insert(OpCodes::new(OpCodes::LOWER));
    f.insert(OpCodes::new(OpCodes::UNIT));
    assert_eq!(f.bits(), 17);
    f.remove(OpCodes::new(OpCodes::LOWER));
    assert_eq!(f.bits(), 16);
    assert_eq!(OpCodes::new(0x200_0003).bits(), 3);
}

#[test]
fn flag_words_from_integers() {
    assert_eq!(OpCodes::from_bits(3).map(|f| f.bits()), Some(3));
    assert_eq!(OpCodes::from_bits(0x200_0000), None);
    assert_eq!(OpCodes::from_bits(-1), None);
    assert_eq!(OpCodes::from_bits_truncate(-1).bits(), 0x1ff_ffff);
    assert_eq!(op_bits(None), 0);
    assert_eq!(op_bits(Some(OpCodes::new(OpCodes::TRANSA | OpCodes::TRANSB))), 384);
}

#[test]
fn enum_codes() {
    assert_eq!(CopyOps::All.code(), 0);
    assert_eq!(CopyOps::Lower.code(), 1);
    assert_eq!(CopyOps::Upper.code(), 2);
    assert_eq!(CopyOps::Symm.code(), 4);
    assert_eq!(CopyOps::Unit.code(), 16);
    assert_eq!(Norms::One.code(), 1);
    assert_eq!(Norms::Two.code(), 2);
    assert_eq!(Norms::Infinity.code(), 3);
    assert_eq!(Norms::Frobenius.code(), 4);
    assert_eq!(PivotOps::Forward.code(), 0);
    assert_eq!(PivotOps::Backward.code(), 1);
    assert_eq!(PivotOps::Rows.code(), 2);
    assert_eq!(PivotOps::Columns.code(), 4);
    assert_eq!(PivotOps::Upper.code(), 8);
    assert_eq!(PivotOps::Lower.code(), 16);
}

#[test]
fn error_codes() {
    let all = [
        Error::ENone,
        Error::ESize,
        Error::ENeedVector,
        Error::EInval,
        Error::EImp,
        Error::EWork,
        Error::ESingular,
        Error::ENegative,
        Error::EMemory,
        Error::EConverge,
        Error::ESvdFact,
        Error::ESvdLeft,
        Error::ESvdRight,
        Error::ESvdEigen,
    ];
    for (k, e) in all.iter().enumerate() {
        assert_eq!(e.code(), k as i32);
        assert_eq!(Error::from_code(k as i32), Some(*e));
    }
    assert_eq!(Error::from_code(14), None);
    assert_eq!(Error::from_code(-1), None);
}

#[test]
fn kernel_status() {
    assert_eq!(check_status(0), Ok(()));
    assert_eq!(check_status(-3), Err(3));
    assert_eq!(check_status(-6), Err(6));
    assert_eq!(check_status(2), Err(-2));
    assert_eq!(check_status(i32::MIN), Err(i32::MIN));
    assert_eq!(check_index(7), Ok(7));
    assert_eq!(check_index(0), Ok(0));
    assert_eq!(check_index(-2), Err(2));
    assert_eq!(check_error_slot(0, 1.5f64), Ok(1.5));
    assert_eq!(check_error_slot(9, 1.5f64), Err(9));
}
