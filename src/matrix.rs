//! Square matrices as grids of entries: construction, access, transposition
//! and the submatrices that cofactor expansion walks through.
use vstd::prelude::*;

verus! {

/// An axis of rotation.
#[derive(Clone, Copy, Debug, PartialEq, Eq, Structural)]
pub enum Axis {
    X,
    Y,
    Z,
}

/// Whether `rows` is a square grid of at least one entry.
pub open spec fn is_square<T>(rows: Seq<Seq<T>>) -> bool {
    &&& rows.len() >= 1
    &&& forall|i: int| 0 <= i < rows.len() ==> #[trigger] rows[i].len() == rows.len()
}

/// The rows of a grid of vectors, as sequences.
pub open spec fn rows_view<T>(rows: Seq<Vec<T>>) -> Seq<Seq<T>> {
    rows.map_values(|r: Vec<T>| r@)
}

/// Index into the original grid of the `i`-th line left when line `skip` is removed.
pub open spec fn skip_index(i: int, skip: int) -> int {
    if i < skip {
        i
    } else {
        i + 1
    }
}

/// A square matrix, stored row by row.
#[derive(Clone, Debug, PartialEq)]
pub struct Matrix<T> {
    rows: Vec<Vec<T>>,
}

impl<T> View for Matrix<T> {
    type V = Seq<Seq<T>>;

    closed spec fn view(&self) -> Seq<Seq<T>> {
        rows_view(self.rows@)
    }
}

impl<T> Matrix<T> {
    /// The matrix is square and holds at least one entry.
    pub open spec fn wf(&self) -> bool {
        is_square(self@)
    }

    /// Number of rows (and of columns).
    pub open spec fn size(&self) -> nat {
        self@.len()
    }
}

impl<T: Copy> Matrix<T> {
    /// The matrix whose rows are `rows`.
    pub fn new(rows: Vec<Vec<T>>) -> (m: Self)
        requires
            is_square(rows_view(rows@)),
        ensures
            m@ == rows_view(rows@),
            m.wf(),
    {
        Matrix { rows }
    }

    /// Number of rows (and of columns).
    pub fn len(&self) -> (n: usize)
        requires
            self.wf(),
        ensures
            n == self.size(),
    {
        self.rows.len()
    }

    /// The entry in row `row` and column `col`.
    pub fn get(&self, row: usize, col: usize) -> (x: T)
        requires
            self.wf(),
            row < self.size(),
            col < self.size(),
        ensures
            x == self@[row as int][col as int],
    {
        assert(self@[row as int].len() == self.size());
        self.rows[row][col]
    }

    /// The transpose: rows become columns.
    pub fn transpose(&self) -> (t: Self)
        requires
            self.wf(),
        ensures
            t.wf(),
            t.size() == self.size(),
            forall|i: int, j: int|
                0 <= i < self.size() && 0 <= j < self.size() ==> #[trigger] t@[i][j] == self@[j][i],
    {
        let n: usize = self.rows.len();
        let mut rows: Vec<Vec<T>> = Vec::new();
        for i in 0..n
            invariant
                n == self.size(),
                self.wf(),
                rows@.len() == i,
                forall|k: int| 0 <= k < i ==> #[trigger] rows@[k]@.len() == n,
                forall|k: int, j: int|
                    0 <= k < i && 0 <= j < n ==> rows@[k]@[j] == self@[j][k],
        {
            let mut row: Vec<T> = Vec::new();
            for j in 0..n
                invariant
                    n == self.size(),
                    self.wf(),
                    i < n,
                    row@.len() == j,
                    forall|l: int| 0 <= l < j ==> row@[l] == self@[l][i as int],
            {
                assert(self@[j as int].len() == n);
                row.push(self.rows[j][i]);
            }
            rows.push(row);
        }
        Matrix { rows }
    }

    /// The matrix left when row `row` and column `col` are removed.
    pub fn submatrix(&self, row: usize, col: usize) -> (s: Self)
        requires
            self.wf(),
            self.size() >= 2,
            row < self.size(),
            col < self.size(),
        ensures
            s.wf(),
            s.size() == self.size() - 1,
            forall|i: int, j: int|
                0 <= i < s.size() && 0 <= j < s.size() ==> #[trigger] s@[i][j] == self@[skip_index(
                    i,
                    row as int,
                )][skip_index(j, col as int)],
    {
        let n: usize = self.rows.len();
        let mut rows: Vec<Vec<T>> = Vec::new();
        for i in 0..n - 1
            invariant
                n == self.size(),
                n >= 2,
                row < n,
                col < n,
                self.wf(),
                rows@.len() == i,
                forall|k: int| 0 <= k < i ==> #[trigger] rows@[k]@.len() == n - 1,
                forall|k: int, j: int|
                    0 <= k < i && 0 <= j < n - 1 ==> rows@[k]@[j] == self@[skip_index(
                        k,
                        row as int,
                    )][skip_index(j, col as int)],
        {
            let src: usize = if i < row {
                i
            } else {
                i + 1
            };
            let mut line: Vec<T> = Vec::new();
            for j in 0..n - 1
                invariant
                    n == self.size(),
                    n >= 2,
                    col < n,
                    self.wf(),
                    src < n,
                    src == skip_index(i as int, row as int),
                    line@.len() == j,
                    forall|l: int|
                        0 <= l < j ==> line@[l] == self@[src as int][skip_index(l, col as int)],
            {
                let c: usize = if j < col {
                    j
                } else {
                    j + 1
                };
                assert(self@[src as int].len() == n);
                line.push(self.rows[src][c]);
            }
            rows.push(line);
        }
        Matrix { rows }
    }
}

} // verus!
