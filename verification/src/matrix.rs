//! A dense two-dimensional table, generic in its cells.
//!
//! The transform produces and consumes rectangular tables of samples. The
//! table here keeps its cells row by row and is viewed as a sequence of rows,
//! all of one length.

use vstd::prelude::*;

verus! {

/// Column `j` of a table given as a sequence of rows.
pub open spec fn spec_column<T>(m: Seq<Seq<T>>, j: int) -> Seq<T> {
    Seq::new(m.len(), |i: int| m[i][j])
}

/// Whether every row of `m` has exactly `cols` cells.
pub open spec fn rectangular<T>(m: Seq<Seq<T>>, cols: nat) -> bool {
    forall|i: int| 0 <= i < m.len() ==> (#[trigger] m[i]).len() == cols
}

/// The views of the rows of `rows`, in order.
pub open spec fn rows_view<T>(rows: Seq<Vec<T>>) -> Seq<Seq<T>> {
    Seq::new(rows.len(), |i: int| rows[i]@)
}

/// Whether `out` has the shape of `m` and every cell of `out` is a result
/// of `g` on the cell of `m` in the same place.
pub open spec fn is_mapped<T, U, G: Fn(T) -> U>(m: Seq<Seq<T>>, g: G, out: Seq<Seq<U>>) -> bool {
    &&& out.len() == m.len()
    &&& forall|r: int| 0 <= r < m.len() ==> (#[trigger] out[r]).len() == m[r].len()
    &&& forall|r: int, c: int|
        0 <= r < m.len() && 0 <= c < m[r].len() ==> call_ensures(
            g,
            (m[r][c],),
            #[trigger] out[r][c],
        )
}

/// A rectangular table of cells.
#[derive(Debug, PartialEq)]
pub struct Matrix<T> {
    cells: Vec<Vec<T>>,
    width: usize,
}

impl<T> View for Matrix<T> {
    type V = Seq<Seq<T>>;

    closed spec fn view(&self) -> Seq<Seq<T>> {
        rows_view(self.cells@)
    }
}

impl<T> Matrix<T> {
    #[verifier::type_invariant]
    closed spec fn rows_agree(&self) -> bool {
        rectangular(rows_view(self.cells@), self.width as nat)
    }

    /// The number of cells in each row.
    pub closed spec fn spec_cols(&self) -> nat {
        self.width as nat
    }

    /// The number of rows.
    pub open spec fn spec_rows(&self) -> nat {
        self@.len()
    }

    /// Every row holds `spec_cols()` cells.
    pub open spec fn wf(&self) -> bool {
        rectangular(self@, self.spec_cols())
    }

    /// Builds a table from rows that are known to share the length `cols`.
    pub(crate) fn new(rows: Vec<Vec<T>>, cols: usize) -> (m: Self)
        requires
            rectangular(rows_view(rows@), cols as nat),
        ensures
            m.wf(),
            m@ == rows_view(rows@),
            m.spec_cols() == cols,
    {
        Matrix { cells: rows, width: cols }
    }

    /// Builds a table from rows, or nothing when some row is not `cols`
    /// cells long.
    pub fn from_rows(rows: Vec<Vec<T>>, cols: usize) -> (res: Option<Self>)
        ensures
            res.is_some() <==> rectangular(rows_view(rows@), cols as nat),
            res matches Some(m) ==> m.wf() && m@ == rows_view(rows@) && m.spec_cols() == cols,
    {
        let mut i: usize = 0;
        while i < rows.len()
            invariant
                i <= rows.len(),
                forall|k: int| 0 <= k < i ==> (#[trigger] rows@[k]).len() == cols,
            decreases rows.len() - i,
        {
            if rows[i].len() != cols {
                assert(rows_view(rows@)[i as int].len() != cols);
                return None;
            }
            i += 1;
        }
        Some(Matrix { cells: rows, width: cols })
    }

    /// The number of rows.
    pub fn rows(&self) -> (n: usize)
        ensures
            n == self.spec_rows(),
    {
        self.cells.len()
    }

    /// The number of cells in each row.
    pub fn cols(&self) -> (n: usize)
        ensures
            n == self.spec_cols(),
            self.wf(),
    {
        proof {
            use_type_invariant(self);
        }
        self.width
    }

    /// Row `i` of the table.
    pub fn row(&self, i: usize) -> (r: &Vec<T>)
        requires
            i < self.spec_rows(),
        ensures
            r@ == self@[i as int],
    {
        &self.cells[i]
    }

    /// Gives the rows back, in order.
    pub fn into_rows(self) -> (rows: Vec<Vec<T>>)
        ensures
            rows_view(rows@) == self@,
            self.wf(),
    {
        proof {
            use_type_invariant(&self);
        }
        self.cells
    }
}

impl<T: Copy> Matrix<T> {
    /// The cell in row `r` and column `c`.
    pub fn get(&self, r: usize, c: usize) -> (x: T)
        requires
            r < self.spec_rows(),
            c < self.spec_cols(),
        ensures
            x == self@[r as int][c as int],
    {
        proof {
            use_type_invariant(self);
        }
        assert(self@[r as int].len() == self.spec_cols());
        self.cells[r][c]
    }

    /// Column `j`, read from the first row to the last.
    pub fn column(&self, j: usize) -> (col: Vec<T>)
        requires
            j < self.spec_cols(),
        ensures
            col@ == spec_column(self@, j as int),
    {
        proof {
            use_type_invariant(self);
        }
        let n = self.cells.len();
        let mut col: Vec<T> = Vec::with_capacity(n);
        let mut i: usize = 0;
        while i < n
            invariant
                self.wf(),
                j < self.spec_cols(),
                n == self.cells@.len(),
                i <= n,
                col@.len() == i,
                forall|k: int| 0 <= k < i ==> col@[k] == self@[k][j as int],
            decreases n - i,
        {
            assert(self@[i as int].len() == self.spec_cols());
            col.push(self.cells[i][j]);
            i += 1;
        }
        col
    }

    /// The table of the results of `g` on every cell.
    pub fn map<U, G: Fn(T) -> U>(&self, g: &G) -> (out: Matrix<U>)
        requires
            forall|r: int, c: int|
                0 <= r < self@.len() && 0 <= c < self@[r].len() ==> call_requires(
                    *g,
                    (#[trigger] self@[r][c],),
                ),
        ensures
            out.wf(),
            out.spec_cols() == self.spec_cols(),
            is_mapped(self@, *g, out@),
    {
        proof {
            use_type_invariant(self);
        }
        let height = self.cells.len();
        let mut cells: Vec<Vec<U>> = Vec::with_capacity(height);
        let mut r: usize = 0;
        while r < height
            invariant
                self.wf(),
                height == self@.len(),
                forall|a: int, b: int|
                    0 <= a < self@.len() && 0 <= b < self@[a].len() ==> call_requires(
                        *g,
                        (#[trigger] self@[a][b],),
                    ),
                r <= height,
                cells@.len() == r,
                forall|a: int| 0 <= a < r ==> (#[trigger] cells@[a])@.len() == self.spec_cols(),
                forall|a: int, b: int|
                    0 <= a < r && 0 <= b < self.spec_cols() ==> call_ensures(
                        *g,
                        (self@[a][b],),
                        #[trigger] cells@[a]@[b],
                    ),
            decreases height - r,
        {
            let source = &self.cells[r];
            assert(source@ == self@[r as int]);
            let mut row: Vec<U> = Vec::with_capacity(self.width);
            let mut c: usize = 0;
            while c < self.width
                invariant
                    self.wf(),
                    r < self@.len(),
                    source@ == self@[r as int],
                    source@.len() == self.width,
                    forall|b: int|
                        0 <= b < source@.len() ==> call_requires(*g, (#[trigger] source@[b],)),
                    c <= self.width,
                    row@.len() == c,
                    forall|b: int|
                        0 <= b < c ==> call_ensures(*g, (source@[b],), #[trigger] row@[b]),
                decreases self.width - c,
            {
                let y = g(source[c]);
                row.push(y);
                c = c + 1;
            }
            cells.push(row);
            r = r + 1;
        }
        Matrix { cells, width: self.width }
    }

    /// The table with rows and columns exchanged.
    pub fn transposed(&self) -> (t: Self)
        ensures
            self.wf(),
            t.wf(),
            t.spec_rows() == self.spec_cols(),
            t.spec_cols() == self.spec_rows(),
            forall|r: int, c: int|
                0 <= r < self.spec_rows() && 0 <= c < self.spec_cols() ==> #[trigger] t@[c][r]
                    == self@[r][c],
    {
        proof {
            use_type_invariant(self);
        }
        let height = self.cells.len();
        let mut out: Vec<Vec<T>> = Vec::with_capacity(self.width);
        let mut j: usize = 0;
        while j < self.width
            invariant
                self.wf(),
                height == self.cells@.len(),
                j <= self.width,
                out@.len() == j,
                forall|c: int| 0 <= c < j ==> (#[trigger] out@[c])@ == spec_column(self@, c),
            decreases self.width - j,
        {
            let col = self.column(j);
            out.push(col);
            j += 1;
        }
        Matrix { cells: out, width: height }
    }
}

} // verus!
