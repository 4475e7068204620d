use vstd::prelude::*;

verus! {

/// Selects which part of a matrix a copy transfers.
#[derive(Clone, Copy, Debug, PartialEq, Eq, Structural)]
pub enum CopyOps {
    /// Every element.
    All,
    /// The lower triangle, diagonal included.
    Lower,
    /// The upper triangle, diagonal included.
    Upper,
    /// A symmetric matrix.
    Symm,
    /// A unit diagonal matrix.
    Unit,
}

impl CopyOps {
    pub open spec fn spec_code(self) -> i32 {
        match self {
            CopyOps::All => 0,
            CopyOps::Lower => 0x1,
            CopyOps::Upper => 0x2,
            CopyOps::Symm => 0x4,
            CopyOps::Unit => 0x10,
        }
    }

    /// The flag bits that the kernel expects for this selection.
    pub fn code(&self) -> (r: i32)
        ensures
            r == self.spec_code(),
    {
        match self {
            CopyOps::All => 0,
            CopyOps::Lower => 0x1,
            CopyOps::Upper => 0x2,
            CopyOps::Symm => 0x4,
            CopyOps::Unit => 0x10,
        }
    }
}

/// Matrix norms.
#[derive(Clone, Copy, Debug, PartialEq, Eq, Structural)]
pub enum Norms {
    One,
    Two,
    Infinity,
    Frobenius,
}

impl Norms {
    pub open spec fn spec_code(self) -> i32 {
        match self {
            Norms::One => 1,
            Norms::Two => 2,
            Norms::Infinity => 3,
            Norms::Frobenius => 4,
        }
    }

    /// The norm tag that the kernel expects.
    pub fn code(&self) -> (r: i32)
        ensures
            r == self.spec_code(),
    {
        match self {
            Norms::One => 1,
            Norms::Two => 2,
            Norms::Infinity => 3,
            Norms::Frobenius => 4,
        }
    }
}

/// How a pivot table is applied.
#[derive(Clone, Copy, Debug, PartialEq, Eq, Structural)]
pub enum PivotOps {
    /// Pivot forwards
    Forward,
    /// Pivot backwards
    Backward,
    /// Pivot rows
    Rows,
    /// Pivot columns
    Columns,
    /// Pivot upper triangular symmetric matrix
    Upper,
    /// Pivot lower triangular symmetric matrix
    Lower,
}

impl PivotOps {
    pub open spec fn spec_code(self) -> i32 {
        match self {
            PivotOps::Forward => 0x0,
            PivotOps::Backward => 0x1,
            PivotOps::Rows => 0x2,
            PivotOps::Columns => 0x4,
            PivotOps::Upper => 0x8,
            PivotOps::Lower => 0x10,
        }
    }

    /// The flag bits that the kernel expects.
    pub fn code(&self) -> (r: i32)
        ensures
            r == self.spec_code(),
    {
        match self {
            PivotOps::Forward => 0x0,
            PivotOps::Backward => 0x1,
            PivotOps::Rows => 0x2,
            PivotOps::Columns => 0x4,
            PivotOps::Upper => 0x8,
            PivotOps::Lower => 0x10,
        }
    }
}

/// Error kinds reported by the kernel.
#[derive(Clone, Copy, Debug, PartialEq, Eq, Structural)]
pub enum Error {
    ENone,
    /// Operand size mismatch
    ESize,
    /// Vector operand required
    ENeedVector,
    /// Invalid parameter
    EInval,
    /// Not implemented
    EImp,
    /// Workspace too small
    EWork,
    /// Singular matrix
    ESingular,
    /// Negative value on diagonal
    ENegative,
    /// Memory allocation failed
    EMemory,
    /// Algorithm does not converge
    EConverge,
    /// Svd factorization failed
    ESvdFact,
    /// Svd left eigenvector error
    ESvdLeft,
    /// Svd right eigenvector error
    ESvdRight,
    /// Svd bidiagonal eigenvalue error
    ESvdEigen,
}

impl Error {
    pub open spec fn spec_code(self) -> i32 {
        match self {
            Error::ENone => 0,
            Error::ESize => 1,
            Error::ENeedVector => 2,
            Error::EInval => 3,
            Error::EImp => 4,
            Error::EWork => 5,
            Error::ESingular => 6,
            Error::ENegative => 7,
            Error::EMemory => 8,
            Error::EConverge => 9,
            Error::ESvdFact => 10,
            Error::ESvdLeft => 11,
            Error::ESvdRight => 12,
            Error::ESvdEigen => 13,
        }
    }

    /// The numeric code of this error kind.
    pub fn code(&self) -> (r: i32)
        ensures
            r == self.spec_code(),
    {
        match self {
            Error::ENone => 0,
            Error::ESize => 1,
            Error::ENeedVector => 2,
            Error::EInval => 3,
            Error::EImp => 4,
            Error::EWork => 5,
            Error::ESingular => 6,
            Error::ENegative => 7,
            Error::EMemory => 8,
            Error::EConverge => 9,
            Error::ESvdFact => 10,
            Error::ESvdLeft => 11,
            Error::ESvdRight => 12,
            Error::ESvdEigen => 13,
        }
    }

    /// The error kind with the given numeric code, if there is one.
    pub fn from_code(code: i32) -> (r: Option<Error>)
        ensures
            r.is_some() <==> 0 <= code <= 13,
            r matches Some(e) ==> e.spec_code() == code,
    {
        match code {
            0 => Some(Error::ENone),
            1 => Some(Error::ESize),
            2 => Some(Error::ENeedVector),
            3 => Some(Error::EInval),
            4 => Some(Error::EImp),
            5 => Some(Error::EWork),
            6 => Some(Error::ESingular),
            7 => Some(Error::ENegative),
            8 => Some(Error::EMemory),
            9 => Some(Error::EConverge),
            10 => Some(Error::ESvdFact),
            11 => Some(Error::ESvdLeft),
            12 => Some(Error::ESvdRight),
            13 => Some(Error::ESvdEigen),
            _ => None,
        }
    }
}

/// The error code carried by a failing kernel status: its two's complement
/// negation, so that a status `-k` gives the code `k`.
pub open spec fn failure_code(status: i32) -> i32 {
    if status == i32::MIN {
        status
    } else {
        (-status) as i32
    }
}

/// Folds a kernel status into a result: zero is success, any other status is
/// a failure whose code is the negated status.
pub fn check_status(status: i32) -> (r: Result<(), i32>)
    ensures
        r.is_ok() <==> status == 0,
        r matches Err(e) ==> e == failure_code(status),
{
    if status == 0 {
        Ok(())
    } else if status == i32::MIN {
        Err(status)
    } else {
        Err(-status)
    }
}

/// Folds a kernel status that is an index on success (non-negative) or a
/// negated error code on failure.
pub fn check_index(status: i32) -> (r: Result<u32, i32>)
    ensures
        r.is_ok() <==> status >= 0,
        r matches Ok(i) ==> i as int == status as int,
        r matches Err(e) ==> e == failure_code(status),
{
    if status >= 0 {
        Ok(status as u32)
    } else if status == i32::MIN {
        Err(status)
    } else {
        Err(-status)
    }
}

/// Folds the error slot of a configuration, read after a call that returns a
/// scalar, with that scalar: a zero slot is success.
pub fn check_error_slot<T>(error: i32, value: T) -> (r: Result<T, i32>)
    ensures
        r.is_ok() <==> error == 0,
        r matches Ok(v) ==> v == value,
        r matches Err(e) ==> e == error,
{
    if error == 0 {
        Ok(value)
    } else {
        Err(error)
    }
}

} // verus!
