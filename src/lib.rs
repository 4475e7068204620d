pub mod common;
pub mod dense;
pub mod flags;
pub mod laws;
pub mod pivot;
pub mod vec;

pub use common::{CopyOps, Error, Norms, PivotOps};
pub use dense::{Dense, Matrix, MatrixIterator, MatrixRecord, MatrixView, VectorView};
pub use flags::OpCodes;
pub use pivot::Pivot;
pub use vec::{Vector, VectorIterator, VectorRecord};
