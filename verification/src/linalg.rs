//! Two-by-two matrices.

use vstd::prelude::*;

verus! {

/// A matrix with two rows and two columns; `x01` stands in the first row and
/// the second column.
#[derive(Debug, Clone, Copy, Eq, PartialEq)]
pub struct Matrix2d<T> {
    pub x00: T,
    pub x01: T,
    pub x10: T,
    pub x11: T,
}

impl<T> Matrix2d<T> {
    /// The matrix with the given rows.
    pub fn from_rows(row0: (T, T), row1: (T, T)) -> (m: Matrix2d<T>)
        ensures
            m.x00 == row0.0,
            m.x01 == row0.1,
            m.x10 == row1.0,
            m.x11 == row1.1,
    {
        Matrix2d { x00: row0.0, x01: row0.1, x10: row1.0, x11: row1.1 }
    }

    /// The matrix with the given columns.
    pub fn from_columns(col0: (T, T), col1: (T, T)) -> (m: Matrix2d<T>)
        ensures
            m.x00 == col0.0,
            m.x01 == col1.0,
            m.x10 == col0.1,
            m.x11 == col1.1,
    {
        Matrix2d { x00: col0.0, x01: col1.0, x10: col0.1, x11: col1.1 }
    }
}

impl Matrix2d<i128> {
    /// The determinant as a mathematical integer.
    pub open spec fn spec_det(self) -> int {
        self.x00 * self.x11 - self.x01 * self.x10
    }

    /// Whether both products and their difference can be held in the entries' type.
    pub open spec fn det_fits(self) -> bool {
        &&& i128::MIN <= self.x00 * self.x11 <= i128::MAX
        &&& i128::MIN <= self.x01 * self.x10 <= i128::MAX
        &&& i128::MIN <= self.spec_det() <= i128::MAX
    }

    /// The determinant.
    pub fn det(self) -> (d: i128)
        requires
            self.det_fits(),
        ensures
            d == self.spec_det(),
    {
        self.x00 * self.x11 - self.x01 * self.x10
    }
}

} // verus!
