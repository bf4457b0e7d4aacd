//! Square matrices over any copyable entry type: the shape-level operations
//! (construction, transpose, submatrix) that do not depend on the arithmetic
//! of the entries.
use vstd::prelude::*;

verus! {

/// Every row of `m` has as many entries as `m` has rows.
pub open spec fn is_square<T>(m: Seq<Seq<T>>) -> bool {
    forall|i: int| 0 <= i < m.len() ==> #[trigger] m[i].len() == m.len()
}

/// The `n` x `n` matrix with `one` on the diagonal and `zero` elsewhere.
pub open spec fn spec_identity<T>(n: nat, zero: T, one: T) -> Seq<Seq<T>> {
    Seq::new(n, |i: int| Seq::new(n, |j: int| if i == j { one } else { zero }))
}

/// The `n` x `n` matrix whose entries are all `value`.
pub open spec fn spec_filled<T>(n: nat, value: T) -> Seq<Seq<T>> {
    Seq::new(n, |i: int| Seq::new(n, |j: int| value))
}

/// Rows and columns of `m` exchanged.
pub open spec fn spec_transpose<T>(m: Seq<Seq<T>>) -> Seq<Seq<T>> {
    Seq::new(m.len(), |i: int| Seq::new(m.len(), |j: int| m[j][i]))
}

/// `m` with row `row` and column `col` removed.
pub open spec fn spec_submatrix<T>(m: Seq<Seq<T>>, row: int, col: int) -> Seq<Seq<T>> {
    m.remove(row).map_values(|r: Seq<T>| r.remove(col))
}

/// Transposing a square matrix twice gives back the matrix.
pub proof fn transpose_involutive<T>(m: Seq<Seq<T>>)
    requires
        is_square(m),
    ensures
        spec_transpose(spec_transpose(m)) == m,
{
    let t = spec_transpose(spec_transpose(m));
    assert forall|i: int| 0 <= i < m.len() implies t[i] == m[i] by {
        assert(m[i].len() == m.len());
        assert(t[i] =~= m[i]);
    }
    assert(t =~= m);
}

/// The cofactor at (`row`, `col`) is the minor with its sign flipped exactly
/// when `row + col` is odd.
pub open spec fn spec_cofactor_negated(row: int, col: int) -> bool {
    (row + col) % 2 == 1
}

/// Whether the cofactor at (`row`, `col`) is the negated minor.
pub fn cofactor_negated(row: usize, col: usize) -> (r: bool)
    ensures
        r == spec_cofactor_negated(row as int, col as int),
{
    row % 2 != col % 2
}

/// A square grid of entries, stored row by row.
pub struct SquareMatrix<T> {
    data: Vec<Vec<T>>,
}

impl<T> View for SquareMatrix<T> {
    type V = Seq<Seq<T>>;

    closed spec fn view(&self) -> Seq<Seq<T>> {
        self.data@.map_values(|r: Vec<T>| r@)
    }
}

/// A copy of `r` without the entry at `col`.
fn row_without<T: Copy>(r: &Vec<T>, col: usize) -> (out: Vec<T>)
    requires
        col < r@.len(),
    ensures
        out@ == r@.remove(col as int),
{
    let n = r.len();
    let mut out: Vec<T> = Vec::new();
    let mut j: usize = 0;
    proof {
        r@.remove_ensures(col as int);
    }
    while j + 1 < n
        invariant
            n == r@.len(),
            col < n,
            j < n,
            out@.len() == j,
            forall|k: int| 0 <= k < j ==> out@[k] == r@.remove(col as int)[k],
        decreases n - j,
    {
        let src = if j < col {
            j
        } else {
            j + 1
        };
        out.push(r[src]);
        j += 1;
    }
    assert(out@ =~= r@.remove(col as int));
    out
}

/// A copy of `r`.
fn copy_row<T: Copy>(r: &Vec<T>) -> (out: Vec<T>)
    ensures
        out@ == r@,
{
    let mut out: Vec<T> = Vec::new();
    let mut j: usize = 0;
    while j < r.len()
        invariant
            j <= r@.len(),
            out@ == r@.subrange(0, j as int),
        decreases r@.len() - j,
    {
        out.push(r[j]);
        j += 1;
        assert(out@ =~= r@.subrange(0, j as int));
    }
    assert(r@.subrange(0, r@.len() as int) =~= r@);
    out
}

impl<T: Copy> SquareMatrix<T> {
    pub open spec fn wf(&self) -> bool {
        is_square(self@)
    }

    /// The matrix whose rows are `data`.
    pub fn new(data: Vec<Vec<T>>) -> (r: Self)
        requires
            is_square(data@.map_values(|row: Vec<T>| row@)),
        ensures
            r.wf(),
            r@ == data@.map_values(|row: Vec<T>| row@),
    {
        SquareMatrix { data }
    }

    /// The number of rows (and of columns).
    pub fn size(&self) -> (r: usize)
        ensures
            r == self@.len(),
    {
        self.data.len()
    }

    /// The entry in row `row`, column `col`.
    pub fn get(&self, row: usize, col: usize) -> (r: T)
        requires
            self.wf(),
            row < self@.len(),
            col < self@.len(),
        ensures
            r == self@[row as int][col as int],
    {
        assert(self@[row as int].len() == self@.len());
        self.data[row][col]
    }

    /// The `n` x `n` matrix whose entries are all `value`.
    pub fn filled(n: usize, value: T) -> (r: Self)
        ensures
            r.wf(),
            r@ == spec_filled(n as nat, value),
    {
        let mut data: Vec<Vec<T>> = Vec::new();
        let mut i: usize = 0;
        while i < n
            invariant
                i <= n,
                data@.len() == i,
                forall|k: int| 0 <= k < i ==> #[trigger] data@[k]@ == spec_filled(n as nat, value)[k],
            decreases n - i,
        {
            let mut row: Vec<T> = Vec::new();
            let mut j: usize = 0;
            while j < n
                invariant
                    j <= n,
                    row@.len() == j,
                    forall|k: int| 0 <= k < j ==> row@[k] == value,
                decreases n - j,
            {
                row.push(value);
                j += 1;
            }
            assert(row@ =~= spec_filled(n as nat, value)[i as int]);
            data.push(row);
            i += 1;
        }
        let r = SquareMatrix { data };
        assert(r@ =~= spec_filled(n as nat, value));
        r
    }

    /// The `n` x `n` matrix with `one` on the diagonal and `zero` elsewhere.
    pub fn identity(n: usize, zero: T, one: T) -> (r: Self)
        ensures
            r.wf(),
            r@ == spec_identity(n as nat, zero, one),
    {
        let mut data: Vec<Vec<T>> = Vec::new();
        let mut i: usize = 0;
        while i < n
            invariant
                i <= n,
                data@.len() == i,
                forall|k: int| 0 <= k < i ==> #[trigger] data@[k]@ == spec_identity(n as nat, zero, one)[k],
            decreases n - i,
        {
            let mut row: Vec<T> = Vec::new();
            let mut j: usize = 0;
            while j < n
                invariant
                    j <= n,
                    row@.len() == j,
                    forall|k: int| 0 <= k < j ==> row@[k] == if k == i { one } else { zero },
                decreases n - j,
            {
                if j == i {
                    row.push(one);
                } else {
                    row.push(zero);
                }
                j += 1;
            }
            assert(row@ =~= spec_identity(n as nat, zero, one)[i as int]);
            data.push(row);
            i += 1;
        }
        let r = SquareMatrix { data };
        assert(r@ =~= spec_identity(n as nat, zero, one));
        r
    }

    /// Rows and columns exchanged.
    pub fn transpose(&self) -> (r: Self)
        requires
            self.wf(),
        ensures
            r.wf(),
            r@ == spec_transpose(self@),
    {
        let n = self.data.len();
        let mut data: Vec<Vec<T>> = Vec::new();
        let mut i: usize = 0;
        while i < n
            invariant
                n == self@.len(),
                is_square(self@),
                i <= n,
                data@.len() == i,
                forall|k: int| 0 <= k < i ==> #[trigger] data@[k]@ == spec_transpose(self@)[k],
            decreases n - i,
        {
            let mut row: Vec<T> = Vec::new();
            let mut j: usize = 0;
            while j < n
                invariant
                    n == self@.len(),
                    is_square(self@),
                    i < n,
                    j <= n,
                    row@.len() == j,
                    forall|k: int| 0 <= k < j ==> row@[k] == self@[k][i as int],
                decreases n - j,
            {
                assert(self@[j as int].len() == n);
                row.push(self.data[j][i]);
                j += 1;
            }
            assert(row@ =~= spec_transpose(self@)[i as int]);
            data.push(row);
            i += 1;
        }
        let r = SquareMatrix { data };
        assert(r@ =~= spec_transpose(self@));
        r
    }

    /// The rows of the matrix, copied.
    pub fn to_rows(&self) -> (r: Vec<Vec<T>>)
        ensures
            r@.map_values(|row: Vec<T>| row@) == self@,
    {
        let mut rows: Vec<Vec<T>> = Vec::new();
        let mut i: usize = 0;
        while i < self.data.len()
            invariant
                i <= self@.len(),
                rows@.len() == i,
                forall|k: int| 0 <= k < i ==> #[trigger] rows@[k]@ == self@[k],
            decreases self@.len() - i,
        {
            let row = copy_row(&self.data[i]);
            rows.push(row);
            i += 1;
        }
        assert(rows@.map_values(|row: Vec<T>| row@) =~= self@);
        rows
    }

    /// The matrix without row `row` and column `col`.
    pub fn submatrix(&self, row: usize, col: usize) -> (r: Self)
        requires
            self.wf(),
            row < self@.len(),
            col < self@.len(),
        ensures
            r.wf(),
            r@ == spec_submatrix(self@, row as int, col as int),
    {
        let n = self.data.len();
        let ghost m = self@;
        let ghost s = spec_submatrix(m, row as int, col as int);
        proof {
            m.remove_ensures(row as int);
        }
        let mut data: Vec<Vec<T>> = Vec::new();
        let mut i: usize = 0;
        while i + 1 < n
            invariant
                m == self@,
                n == m.len(),
                is_square(m),
                row < n,
                col < n,
                i < n,
                s == spec_submatrix(m, row as int, col as int),
                data@.len() == i,
                forall|k: int| 0 <= k < i ==> #[trigger] data@[k]@ == s[k],
            decreases n - i,
        {
            let src = if i < row {
                i
            } else {
                i + 1
            };
            assert(m[src as int].len() == n);
            assert(self.data@[src as int]@ == m[src as int]);
            let r = row_without(&self.data[src], col);
            assert(m.remove(row as int)[i as int] == m[src as int]);
            data.push(r);
            i += 1;
        }
        let r = SquareMatrix { data };
        assert(r@ =~= s);
        assert forall|k: int| 0 <= k < s.len() implies #[trigger] s[k].len() == s.len() by {
            assert(m.remove(row as int)[k].len() == n);
        }
        r
    }
}

/// One term of the cofactor expansion along the first row: the entry, whether
/// its minor is taken negated, and the submatrix whose determinant is that minor.
pub struct ExpansionTerm<T> {
    pub entry: T,
    pub negated: bool,
    pub minor: SquareMatrix<T>,
}

impl<T: Copy> SquareMatrix<T> {
    /// The terms of the cofactor expansion along row 0, one per column, in
    /// column order: the determinant is the sum of `entry` times the signed
    /// determinant of `minor`.
    pub fn expansion_terms(&self) -> (r: Vec<ExpansionTerm<T>>)
        requires
            self.wf(),
        ensures
            r@.len() == self@.len(),
            forall|col: int|
                0 <= col < r@.len() ==> {
                    &&& (#[trigger] r@[col]).entry == self@[0][col]
                    &&& r@[col].negated == spec_cofactor_negated(0, col)
                    &&& r@[col].minor.wf()
                    &&& r@[col].minor@ == spec_submatrix(self@, 0, col)
                },
    {
        let n = self.size();
        let mut terms: Vec<ExpansionTerm<T>> = Vec::new();
        let mut col: usize = 0;
        while col < n
            invariant
                self.wf(),
                n == self@.len(),
                col <= n,
                terms@.len() == col,
                forall|k: int|
                    0 <= k < col ==> {
                        &&& (#[trigger] terms@[k]).entry == self@[0][k]
                        &&& terms@[k].negated == spec_cofactor_negated(0, k)
                        &&& terms@[k].minor.wf()
                        &&& terms@[k].minor@ == spec_submatrix(self@, 0, k)
                    },
            decreases n - col,
        {
            let term = ExpansionTerm {
                entry: self.get(0, col),
                negated: cofactor_negated(0, col),
                minor: self.submatrix(0, col),
            };
            terms.push(term);
            col += 1;
        }
        terms
    }
}

} // verus!
