use vstd::prelude::*;

use crate::arithmetic::Arithmetic;
use crate::trainer::views;

verus! {

/// The dot product of the first `n` slots of two view sequences,
/// accumulated left to right from zero.
pub open spec fn sp_dot_prefix<T: Arithmetic>(a: Seq<T::V>, b: Seq<T::V>, n: int) -> T::V
    decreases n,
{
    if n <= 0 {
        T::sp_zero()
    } else {
        T::sp_add(sp_dot_prefix::<T>(a, b, n - 1), T::sp_mul(a[n - 1], b[n - 1]))
    }
}

/// A row-major matrix of `ROWS` by `COLS` scalars, generic over the scalar
/// like everything in this crate: the same matrix code serves plain
/// scalars and dual numbers.
pub struct Matrix<const ROWS: usize, const COLS: usize, T> {
    data: Vec<Vec<T>>,
}

impl<const ROWS: usize, const COLS: usize, T: Arithmetic> Matrix<ROWS, COLS, T> {
    /// The declared shape holds.
    pub closed spec fn wf(&self) -> bool {
        &&& self.data@.len() == ROWS
        &&& forall|y: int| 0 <= y < ROWS ==> (#[trigger] self.data@[y])@.len() == COLS
    }

    /// The cell at row `y`, column `x`, as a view.
    pub closed spec fn sp_at(&self, y: int, x: int) -> T::V {
        self.data@[y]@[x].v()
    }

    /// Wrap a row-major cell vector as a matrix.
    pub fn new(data: Vec<Vec<T>>) -> (r: Self)
        requires
            data@.len() == ROWS,
            forall|y: int| 0 <= y < ROWS ==> (#[trigger] data@[y])@.len() == COLS,
        ensures
            r.wf(),
            forall|y: int, x: int|
                0 <= y < ROWS && 0 <= x < COLS ==> #[trigger] r.sp_at(y, x) == data@[y]@[x].v(),
    {
        Matrix { data }
    }

    /// The zero matrix.
    pub fn cero() -> (r: Self)
        ensures
            r.wf(),
            forall|y: int, x: int|
                0 <= y < ROWS && 0 <= x < COLS ==> #[trigger] r.sp_at(y, x) == T::sp_zero(),
    {
        let mut data: Vec<Vec<T>> = Vec::new();
        let mut y: usize = 0;
        while y < ROWS
            invariant
                y <= ROWS,
                data@.len() == y,
                forall|i: int| 0 <= i < y ==> (#[trigger] data@[i])@.len() == COLS,
                forall|i: int, j: int|
                    0 <= i < y && 0 <= j < COLS ==> #[trigger] data@[i]@[j].v() == T::sp_zero(),
            decreases ROWS - y,
        {
            let mut row: Vec<T> = Vec::new();
            let mut x: usize = 0;
            while x < COLS
                invariant
                    x <= COLS,
                    row@.len() == x,
                    forall|j: int| 0 <= j < x ==> #[trigger] row@[j].v() == T::sp_zero(),
                decreases COLS - x,
            {
                row.push(T::zero());
                x += 1;
            }
            data.push(row);
            y += 1;
        }
        Matrix { data }
    }

    /// Read one cell.
    pub fn get(&self, y: usize, x: usize) -> (r: &T)
        requires
            self.wf(),
            y < ROWS,
            x < COLS,
        ensures
            r.v() == self.sp_at(y as int, x as int),
    {
        &self.data[y][x]
    }

    /// Rebuild from a flat row-major vector of `ROWS * COLS` cells.
    pub fn from_flat(flat_data: &Vec<T>) -> (r: Self)
        requires
            flat_data.len() == ROWS * COLS,
        ensures
            r.wf(),
            forall|y: int, x: int|
                0 <= y < ROWS && 0 <= x < COLS ==> #[trigger] r.sp_at(y, x) == flat_data@[y * COLS
                    + x].v(),
    {
        let mut data: Vec<Vec<T>> = Vec::new();
        let mut y: usize = 0;
        while y < ROWS
            invariant
                flat_data.len() == ROWS * COLS,
                y <= ROWS,
                data@.len() == y,
                forall|i: int| 0 <= i < y ==> (#[trigger] data@[i])@.len() == COLS,
                forall|i: int, j: int|
                    0 <= i < y && 0 <= j < COLS ==> #[trigger] data@[i]@[j].v() == flat_data@[i
                        * COLS + j].v(),
            decreases ROWS - y,
        {
            let mut row: Vec<T> = Vec::new();
            let mut x: usize = 0;
            proof {
                assert(y * COLS + COLS <= ROWS * COLS) by (nonlinear_arith)
                    requires
                        y < ROWS,
                        0 <= COLS,
                ;
                assert(y * COLS >= 0) by (nonlinear_arith)
                    requires
                        0 <= y,
                        0 <= COLS,
                ;
            }
            while x < COLS
                invariant
                    flat_data.len() == ROWS * COLS,
                    y < ROWS,
                    y * COLS + COLS <= ROWS * COLS,
                    y * COLS >= 0,
                    x <= COLS,
                    row@.len() == x,
                    forall|j: int|
                        0 <= j < x ==> #[trigger] row@[j].v() == flat_data@[y * COLS + j].v(),
                decreases COLS - x,
            {
                row.push(flat_data[y * COLS + x].dup());
                x += 1;
            }
            data.push(row);
            y += 1;
        }
        Matrix { data }
    }

    /// Apply a scalar transformation to every cell in place. The
    /// returned ghost pair holds, cell for cell, the scalar the
    /// transformation was handed (a copy of the old cell) and the output
    /// it produced (the new cell).
    pub fn delinearize<FD: Fn(T) -> T>(&mut self, delinearizer: FD) -> (wit: Ghost<
        (Seq<Seq<T>>, Seq<Seq<T>>),
    >)
        requires
            old(self).wf(),
            forall|a: T| #[trigger] call_requires(delinearizer, (a,)),
        ensures
            final(self).wf(),
            wit@.0.len() == ROWS,
            wit@.1.len() == ROWS,
            forall|i: int| 0 <= i < ROWS ==> (#[trigger] wit@.0[i]).len() == COLS,
            forall|i: int| 0 <= i < ROWS ==> (#[trigger] wit@.1[i]).len() == COLS,
            forall|i: int, j: int|
                0 <= i < ROWS && 0 <= j < COLS ==> (#[trigger] wit@.0[i][j]).v() == old(
                    self,
                ).sp_at(i, j),
            forall|i: int, j: int|
                0 <= i < ROWS && 0 <= j < COLS ==> call_ensures(
                    delinearizer,
                    (#[trigger] wit@.0[i][j],),
                    wit@.1[i][j],
                ),
            forall|i: int, j: int|
                0 <= i < ROWS && 0 <= j < COLS ==> final(self).sp_at(i, j) == (
                #[trigger] wit@.1[i][j]).v(),
    {
        let mut data: Vec<Vec<T>> = Vec::new();
        let ghost mut aws: Seq<Seq<T>> = Seq::empty();
        let ghost mut bws: Seq<Seq<T>> = Seq::empty();
        let mut y: usize = 0;
        while y < ROWS
            invariant
                self.wf(),
                *self == *old(self),
                forall|a: T| #[trigger] call_requires(delinearizer, (a,)),
                y <= ROWS,
                data@.len() == y,
                aws.len() == y,
                bws.len() == y,
                forall|i: int| 0 <= i < y ==> (#[trigger] data@[i])@.len() == COLS,
                forall|i: int| 0 <= i < y ==> (#[trigger] aws[i]).len() == COLS,
                forall|i: int| 0 <= i < y ==> (#[trigger] bws[i]).len() == COLS,
                forall|i: int, j: int|
                    0 <= i < y && 0 <= j < COLS ==> (#[trigger] aws[i][j]).v() == old(
                        self,
                    ).sp_at(i, j),
                forall|i: int, j: int|
                    0 <= i < y && 0 <= j < COLS ==> call_ensures(
                        delinearizer,
                        (#[trigger] aws[i][j],),
                        bws[i][j],
                    ),
                forall|i: int, j: int|
                    0 <= i < y && 0 <= j < COLS ==> (#[trigger] data@[i]@[j]).v()
                        == bws[i][j].v(),
            decreases ROWS - y,
        {
            let mut row: Vec<T> = Vec::new();
            let ghost mut aw: Seq<T> = Seq::empty();
            let ghost mut bw: Seq<T> = Seq::empty();
            let mut x: usize = 0;
            while x < COLS
                invariant
                    self.wf(),
                    *self == *old(self),
                    forall|a: T| #[trigger] call_requires(delinearizer, (a,)),
                    y < ROWS,
                    x <= COLS,
                    row@.len() == x,
                    aw.len() == x,
                    bw.len() == x,
                    forall|j: int|
                        0 <= j < x ==> (#[trigger] aw[j]).v() == old(self).sp_at(y as int, j),
                    forall|j: int|
                        0 <= j < x ==> call_ensures(delinearizer, (#[trigger] aw[j],), bw[j]),
                    forall|j: int| 0 <= j < x ==> (#[trigger] row@[j]).v() == bw[j].v(),
                decreases COLS - x,
            {
                let cell = self.data[y][x].dup();
                let ghost cellg = cell;
                let out = (delinearizer)(cell);
                let ghost outg = out;
                proof {
                    aw = aw.push(cellg);
                    bw = bw.push(outg);
                }
                row.push(out);
                x += 1;
            }
            proof {
                aws = aws.push(aw);
                bws = bws.push(bw);
            }
            data.push(row);
            y += 1;
        }
        self.data = data;
        Ghost((aws, bws))
    }

    /// Multiply by another matrix: the textbook row-by-column product,
    /// each cell accumulated left to right from zero.
    pub fn mul<const C2: usize>(&self, rhs: &Matrix<COLS, C2, T>) -> (r: Matrix<ROWS, C2, T>)
        requires
            self.wf(),
            rhs.wf(),
        ensures
            r.wf(),
            forall|y: int, x: int|
                0 <= y < ROWS && 0 <= x < C2 ==> #[trigger] r.sp_at(y, x) == sp_dot_prefix::<T>(
                    Seq::new(COLS as nat, |k: int| self.sp_at(y, k)),
                    Seq::new(COLS as nat, |k: int| rhs.sp_at(k, x)),
                    COLS as int,
                ),
    {
        let mut data: Vec<Vec<T>> = Vec::new();
        let mut y: usize = 0;
        while y < ROWS
            invariant
                self.wf(),
                rhs.wf(),
                y <= ROWS,
                data@.len() == y,
                forall|i: int| 0 <= i < y ==> (#[trigger] data@[i])@.len() == C2,
                forall|i: int, j: int|
                    0 <= i < y && 0 <= j < C2 ==> #[trigger] data@[i]@[j].v() == sp_dot_prefix::<
                        T,
                    >(
                        Seq::new(COLS as nat, |k: int| self.sp_at(i, k)),
                        Seq::new(COLS as nat, |k: int| rhs.sp_at(k, j)),
                        COLS as int,
                    ),
            decreases ROWS - y,
        {
            let mut row: Vec<T> = Vec::new();
            let mut x: usize = 0;
            while x < C2
                invariant
                    self.wf(),
                    rhs.wf(),
                    y < ROWS,
                    x <= C2,
                    row@.len() == x,
                    forall|j: int|
                        0 <= j < x ==> #[trigger] row@[j].v() == sp_dot_prefix::<T>(
                            Seq::new(COLS as nat, |k: int| self.sp_at(y as int, k)),
                            Seq::new(COLS as nat, |k: int| rhs.sp_at(k, j)),
                            COLS as int,
                        ),
                decreases C2 - x,
            {
                let mut acc = T::zero();
                let mut k: usize = 0;
                while k < COLS
                    invariant
                        self.wf(),
                        rhs.wf(),
                        y < ROWS,
                        x < C2,
                        k <= COLS,
                        acc.v() == sp_dot_prefix::<T>(
                            Seq::new(COLS as nat, |k2: int| self.sp_at(y as int, k2)),
                            Seq::new(COLS as nat, |k2: int| rhs.sp_at(k2, x as int)),
                            k as int,
                        ),
                    decreases COLS - k,
                {
                    let prod = self.data[y][k].dup().mul(rhs.data[k][x].dup());
                    acc = acc.add(prod);
                    k += 1;
                }
                row.push(acc);
                x += 1;
            }
            data.push(row);
            y += 1;
        }
        Matrix { data }
    }

    /// Add another matrix, cell by cell.
    pub fn add(&self, rhs: &Matrix<ROWS, COLS, T>) -> (r: Matrix<ROWS, COLS, T>)
        requires
            self.wf(),
            rhs.wf(),
        ensures
            r.wf(),
            forall|y: int, x: int|
                0 <= y < ROWS && 0 <= x < COLS ==> #[trigger] r.sp_at(y, x) == T::sp_add(
                    self.sp_at(y, x),
                    rhs.sp_at(y, x),
                ),
    {
        let mut data: Vec<Vec<T>> = Vec::new();
        let mut y: usize = 0;
        while y < ROWS
            invariant
                self.wf(),
                rhs.wf(),
                y <= ROWS,
                data@.len() == y,
                forall|i: int| 0 <= i < y ==> (#[trigger] data@[i])@.len() == COLS,
                forall|i: int, j: int|
                    0 <= i < y && 0 <= j < COLS ==> #[trigger] data@[i]@[j].v() == T::sp_add(
                        self.sp_at(i, j),
                        rhs.sp_at(i, j),
                    ),
            decreases ROWS - y,
        {
            let mut row: Vec<T> = Vec::new();
            let mut x: usize = 0;
            while x < COLS
                invariant
                    self.wf(),
                    rhs.wf(),
                    y < ROWS,
                    x <= COLS,
                    row@.len() == x,
                    forall|j: int|
                        0 <= j < x ==> #[trigger] row@[j].v() == T::sp_add(
                            self.sp_at(y as int, j),
                            rhs.sp_at(y as int, j),
                        ),
                decreases COLS - x,
            {
                row.push(self.data[y][x].dup().add(rhs.data[y][x].dup()));
                x += 1;
            }
            data.push(row);
            y += 1;
        }
        Matrix { data }
    }

    /// Compare with another matrix, cell by cell in the numeric reading:
    /// how the matrix tests check their expectations.
    pub fn eq_num(&self, rhs: &Matrix<ROWS, COLS, T>) -> (r: bool)
        requires
            self.wf(),
            rhs.wf(),
        ensures
            r == forall|y: int, x: int|
                0 <= y < ROWS && 0 <= x < COLS ==> T::sp_eq_num(
                    #[trigger] self.sp_at(y, x),
                    rhs.sp_at(y, x),
                ),
    {
        let mut y: usize = 0;
        while y < ROWS
            invariant
                self.wf(),
                rhs.wf(),
                y <= ROWS,
                forall|i: int, j: int|
                    0 <= i < y && 0 <= j < COLS ==> T::sp_eq_num(
                        #[trigger] self.sp_at(i, j),
                        rhs.sp_at(i, j),
                    ),
            decreases ROWS - y,
        {
            let mut x: usize = 0;
            while x < COLS
                invariant
                    self.wf(),
                    rhs.wf(),
                    y < ROWS,
                    x <= COLS,
                    forall|j: int|
                        0 <= j < x ==> T::sp_eq_num(
                            #[trigger] self.sp_at(y as int, j),
                            rhs.sp_at(y as int, j),
                        ),
                decreases COLS - x,
            {
                if !self.data[y][x].eq_num(&rhs.data[y][x]) {
                    proof {
                        assert(!T::sp_eq_num(self.sp_at(y as int, x as int), rhs.sp_at(y as int, x as int)));
                    }
                    return false;
                }
                x += 1;
            }
            y += 1;
        }
        true
    }
}

impl<const S: usize, T: Arithmetic> Matrix<S, S, T> {
    /// The identity matrix.
    pub fn unit() -> (r: Self)
        ensures
            r.wf(),
            forall|y: int, x: int|
                0 <= y < S && 0 <= x < S ==> #[trigger] r.sp_at(y, x) == (if y == x {
                    T::sp_one()
                } else {
                    T::sp_zero()
                }),
    {
        let mut data: Vec<Vec<T>> = Vec::new();
        let mut y: usize = 0;
        while y < S
            invariant
                y <= S,
                data@.len() == y,
                forall|i: int| 0 <= i < y ==> (#[trigger] data@[i])@.len() == S,
                forall|i: int, j: int|
                    0 <= i < y && 0 <= j < S ==> #[trigger] data@[i]@[j].v() == (if i == j {
                        T::sp_one()
                    } else {
                        T::sp_zero()
                    }),
            decreases S - y,
        {
            let mut row: Vec<T> = Vec::new();
            let mut x: usize = 0;
            while x < S
                invariant
                    y < S,
                    x <= S,
                    row@.len() == x,
                    forall|j: int|
                        0 <= j < x ==> #[trigger] row@[j].v() == (if y == j {
                            T::sp_one()
                        } else {
                            T::sp_zero()
                        }),
                decreases S - x,
            {
                if x == y {
                    row.push(T::one());
                } else {
                    row.push(T::zero());
                }
                x += 1;
            }
            data.push(row);
            y += 1;
        }
        Matrix { data }
    }

    /// A greeting; it answers zero.
    pub fn hola(&self) -> (r: usize)
        ensures
            r == 0,
    {
        0
    }
}

impl<const ROWS: usize, T: Arithmetic> Matrix<ROWS, 1, T> {
    /// A single-column matrix, read back as a vector.
    pub fn as_array(self) -> (r: Vec<T>)
        requires
            self.wf(),
        ensures
            r@.len() == ROWS,
            forall|y: int| 0 <= y < ROWS ==> #[trigger] r@[y].v() == self.sp_at(y, 0),
    {
        let mut r: Vec<T> = Vec::new();
        let mut y: usize = 0;
        while y < ROWS
            invariant
                self.wf(),
                y <= ROWS,
                r@.len() == y,
                forall|i: int| 0 <= i < y ==> #[trigger] r@[i].v() == self.sp_at(i, 0),
            decreases ROWS - y,
        {
            r.push(self.data[y][0].dup());
            y += 1;
        }
        r
    }
}

} // verus!
