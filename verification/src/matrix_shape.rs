use vstd::prelude::*;

verus! {

/// The shape of a flat matrix: how many columns and rows it spans.
pub struct MatrixShape {
    cols: usize,
    rows: usize,
}

impl MatrixShape {
    /// The column count, for specification purposes.
    pub closed spec fn sp_cols(&self) -> int {
        self.cols as int
    }

    /// The row count, for specification purposes.
    pub closed spec fn sp_rows(&self) -> int {
        self.rows as int
    }

    pub fn new(cols: usize, rows: usize) -> (r: Self)
        ensures
            r.sp_cols() == cols,
            r.sp_rows() == rows,
    {
        MatrixShape { cols, rows }
    }

    /// How many cells the shape spans.
    pub fn size(&self) -> (r: usize)
        requires
            self.sp_cols() * self.sp_rows() <= usize::MAX,
        ensures
            r == self.sp_cols() * self.sp_rows(),
    {
        self.cols * self.rows
    }
}

} // verus!
