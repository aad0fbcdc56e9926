//! Row reduction to reduced row-echelon form, the determinant by cofactor
//! expansion, and the inverse by reducing `[A | I]`.
use vstd::prelude::*;
use crate::field::{fadd, fdiv, fmul, fneg, fsub, inv_mod, is_elem, mul_mod, sub_mod, add_mod};
use crate::matrix::{Matrix, MatrixError};
use crate::model::{augment, identity, minor};

verus! {

/// The first row at or below `i` whose entry in column `col` is nonzero.
pub open spec fn find_pivot(m: Seq<Seq<int>>, col: int, i: int) -> Option<int>
    decreases m.len() - i,
{
    if i < 0 || i >= m.len() {
        None
    } else if m[i][col] != 0 {
        Some(i)
    } else {
        find_pivot(m, col, i + 1)
    }
}

/// Rows `a` and `b` exchanged.
pub open spec fn swap_rows(m: Seq<Seq<int>>, a: int, b: int) -> Seq<Seq<int>> {
    m.update(a, m[b]).update(b, m[a])
}

/// Row `r` divided, from column `c` on, by its entry in column `c`.
pub open spec fn scale_row(m: Seq<Seq<int>>, r: int, c: int) -> Seq<Seq<int>> {
    m.update(r, Seq::new(m[r].len(), |j: int| if j >= c { fdiv(m[r][j], m[r][c]) } else { m[r][j] }))
}

/// From every row but `r`, row `r` times that row's entry in column `c`
/// subtracted, from column `c` on.
pub open spec fn eliminate(m: Seq<Seq<int>>, r: int, c: int) -> Seq<Seq<int>> {
    Seq::new(
        m.len(),
        |i: int|
            if i == r {
                m[r]
            } else {
                Seq::new(m[i].len(), |j: int| if j >= c { fsub(m[i][j], fmul(m[i][c], m[r][j])) } else { m[i][j] })
            },
    )
}

/// Row reduction from pivot row `row` and column `col` on, over a matrix with
/// `ncols` columns.
pub open spec fn rref_from(m: Seq<Seq<int>>, ncols: nat, row: nat, col: nat) -> Seq<Seq<int>>
    decreases ncols - col,
{
    if col >= ncols || row >= m.len() {
        m
    } else {
        match find_pivot(m, col as int, row as int) {
            None => rref_from(m, ncols, row, col + 1),
            Some(p) => rref_from(
                eliminate(scale_row(swap_rows(m, row as int, p), row as int, col as int), row as int, col as int),
                ncols,
                row + 1,
                col + 1,
            ),
        }
    }
}

/// The reduced row-echelon form of `m`, which has `ncols` columns, as the
/// column-by-column Gauss-Jordan elimination with the first nonzero pivot
/// computes it.
pub open spec fn rref(m: Seq<Seq<int>>, ncols: nat) -> Seq<Seq<int>> {
    rref_from(m, ncols, 0, 0)
}

/// The determinant: the empty matrix has determinant one, a 1 x 1 matrix its
/// entry, a 2 x 2 matrix `ad - bc`, and a larger one the cofactor expansion
/// along its first row.
pub open spec fn det(m: Seq<Seq<int>>) -> int
    decreases m.len(), m.len() + 1,
{
    if m.len() == 0 {
        1
    } else if m.len() == 1 {
        m[0][0]
    } else if m.len() == 2 {
        fsub(fmul(m[0][0], m[1][1]), fmul(m[0][1], m[1][0]))
    } else {
        cofactor_sum(m, m.len())
    }
}

/// The first `k` terms of the cofactor expansion along row 0, with signs
/// alternating from plus at column 0.
pub open spec fn cofactor_sum(m: Seq<Seq<int>>, k: nat) -> int
    decreases m.len(), k,
{
    if k == 0 || m.len() == 0 {
        0
    } else {
        let t = fmul(m[0][k - 1], det(minor(m, 0, k - 1)));
        fadd(cofactor_sum(m, (k - 1) as nat), if (k - 1) % 2 == 0 { t } else { fneg(t) })
    }
}

/// The right-hand `n` columns of a matrix with `2n` columns.
pub open spec fn right_block(m: Seq<Seq<int>>, n: nat) -> Seq<Seq<int>> {
    Seq::new(m.len(), |i: int| m[i].subrange(n as int, 2 * n as int))
}

/// What `inverse` computes from a square matrix: the right half of the
/// reduced row-echelon form of `[a | I]`.
pub open spec fn inverse_of(a: Seq<Seq<int>>) -> Seq<Seq<int>> {
    right_block(rref(augment(a, identity(a.len())), 2 * a.len()), a.len())
}

proof fn lemma_find_skip(m: Seq<Seq<int>>, col: int, row: int, p: int)
    requires
        0 <= row <= p <= m.len(),
        forall|k: int| row <= k < p ==> #[trigger] m[k][col] == 0,
    ensures
        find_pivot(m, col, row) == find_pivot(m, col, p),
    decreases p - row,
{
    if row < p {
        lemma_find_skip(m, col, row + 1, p);
    }
}

impl Matrix {
    fn swap_rows(&mut self, a: usize, b: usize)
        requires
            old(self).wf(),
            a < old(self).spec_rows(),
            b < old(self).spec_rows(),
        ensures
            final(self).wf(),
            final(self).same_shape(old(self)),
            final(self)@ == swap_rows(old(self)@, a as int, b as int),
    {
        let ghost m = self@;
        if a != b {
            let mut tmp: Vec<u64> = Vec::new();
            self.data.set_and_swap(a, &mut tmp);
            self.data.set_and_swap(b, &mut tmp);
            self.data.set(a, tmp);
        }
        assert(self@ =~~= swap_rows(m, a as int, b as int));
    }

    fn scale_row(&mut self, r: usize, c: usize)
        requires
            old(self).wf(),
            r < old(self).spec_rows(),
            c < old(self).spec_cols(),
        ensures
            final(self).wf(),
            final(self).same_shape(old(self)),
            final(self)@ == scale_row(old(self)@, r as int, c as int),
    {
        let ghost m = self@;
        let inv = inv_mod(self.data[r][c]);
        let mut cur: Vec<u64> = Vec::new();
        self.data.set_and_swap(r, &mut cur);
        let ghost orig = cur@;
        let mut j: usize = c;
        while j < self.cols
            invariant
                c <= j <= self.cols,
                self.cols == old(self).cols,
                cur@.len() == self.cols,
                orig == old(self).data@[r as int]@,
                old(self).wf(),
                r < old(self).rows,
                c < self.cols,
                inv as int == crate::field::finv(orig[c as int] as int),
                is_elem(inv as int),
                forall|k: int| 0 <= k < self.cols ==> is_elem(#[trigger] cur@[k] as int),
                forall|k: int| 0 <= k < self.cols ==> (#[trigger] cur@[k]) as int == if c <= k < j {
                    fdiv(orig[k] as int, orig[c as int] as int)
                } else {
                    orig[k] as int
                },
            decreases self.cols - j,
        {
            let v = mul_mod(cur[j], inv);
            cur.set(j, v);
            j += 1;
        }
        self.data.set(r, cur);
        assert(self@ =~~= scale_row(m, r as int, c as int));
    }

    fn eliminate(&mut self, r: usize, c: usize)
        requires
            old(self).wf(),
            r < old(self).spec_rows(),
            c < old(self).spec_cols(),
        ensures
            final(self).wf(),
            final(self).same_shape(old(self)),
            final(self)@ == eliminate(old(self)@, r as int, c as int),
    {
        let ghost m = self@;
        let ghost piv = self.data@[r as int]@;
        let ghost target = eliminate(m, r as int, c as int);
        let mut i: usize = 0;
        while i < self.rows
            invariant
                self.wf(),
                self.same_shape(old(self)),
                r < self.rows,
                c < self.cols,
                i <= self.rows,
                m == old(self)@,
                m.len() == self.rows,
                target == eliminate(m, r as int, c as int),
                self.data@[r as int]@ == piv,
                piv.len() == self.cols,
                forall|k: int| 0 <= k < self.rows ==> (#[trigger] self@[k]) == if k < i { target[k] } else { m[k] },
            decreases self.rows - i,
        {
            if i != r {
                let ghost before = self@;
                assert(before[i as int] == m[i as int]);
                assert(before[r as int] == m[r as int]);
                assert(forall|k: int| 0 <= k < self.cols ==> #[trigger] m[r as int][k] == piv[k] as int);
                let mut cur: Vec<u64> = Vec::new();
                self.data.set_and_swap(i, &mut cur);
                let ghost orig = cur@;
                assert(forall|k: int| 0 <= k < self.cols ==> #[trigger] m[i as int][k] == orig[k] as int);
                assert(forall|k: int| 0 <= k < self.cols ==> is_elem(#[trigger] orig[k] as int));
                assert(forall|k: int| 0 <= k < self.cols ==> is_elem(#[trigger] piv[k] as int));
                let factor = cur[c];
                let mut j: usize = c;
                while j < self.cols
                    invariant
                        c <= j <= self.cols,
                        i < self.rows,
                        i != r,
                        r < self.rows,
                        self.data@.len() == self.rows,
                        self.data@[r as int]@ == piv,
                        piv.len() == self.cols,
                        orig.len() == self.cols,
                        cur@.len() == self.cols,
                        factor == orig[c as int],
                        forall|k: int| 0 <= k < self.cols ==> is_elem(#[trigger] orig[k] as int),
                        forall|k: int| 0 <= k < self.cols ==> is_elem(#[trigger] piv[k] as int),
                        forall|k: int| 0 <= k < self.cols ==> is_elem(#[trigger] cur@[k] as int),
                        forall|k: int| 0 <= k < self.cols ==> (#[trigger] cur@[k]) as int == if c <= k < j {
                            fsub(orig[k] as int, fmul(orig[c as int] as int, piv[k] as int))
                        } else {
                            orig[k] as int
                        },
                    decreases self.cols - j,
                {
                    let t = mul_mod(factor, self.data[r][j]);
                    let v = sub_mod(cur[j], t);
                    cur.set(j, v);
                    j += 1;
                }
                self.data.set(i, cur);
                assert(self@[i as int] =~= target[i as int]);
                assert forall|k: int| 0 <= k < self.rows && k != i implies #[trigger] self@[k] == before[k] by {}
            }
            i += 1;
        }
        assert(self@ =~~= target);
    }

    /// The reduced row-echelon form: column by column, the first row at or
    /// below the pivot row with a nonzero entry is swapped into place, scaled
    /// so that its leading entry is one, and subtracted from every other row
    /// to clear that column.
    pub fn rref(self) -> (r: Matrix)
        requires
            self.wf(),
        ensures
            r.wf(),
            r.same_shape(&self),
            r@ == rref(self@, self.spec_cols()),
    {
        let mut m = self;
        let ghost m0 = m@;
        let ghost ncols = m.cols as nat;
        let mut row: usize = 0;
        let mut col: usize = 0;
        while col < m.cols && row < m.rows
            invariant
                m.wf(),
                m.same_shape(&self),
                ncols == m.cols,
                row <= m.rows,
                col <= m.cols,
                rref_from(m@, ncols, row as nat, col as nat) == rref(m0, ncols),
            decreases m.cols - col,
        {
            let mut p: usize = row;
            while p < m.rows && m.data[p][col] == 0
                invariant
                    m.wf(),
                    row <= p <= m.rows,
                    col < m.cols,
                    forall|k: int| row <= k < p ==> #[trigger] m@[k][col as int] == 0,
                decreases m.rows - p,
            {
                p += 1;
            }
            proof {
                lemma_find_skip(m@, col as int, row as int, p as int);
            }
            if p < m.rows {
                m.swap_rows(row, p);
                m.scale_row(row, col);
                m.eliminate(row, col);
                row += 1;
            }
            col += 1;
        }
        m
    }

    /// The determinant of `self`, which is square.
    fn det_helper(m: &Matrix) -> (r: u64)
        requires
            m.wf(),
            m.spec_rows() == m.spec_cols(),
        ensures
            r as int == det(m@),
            is_elem(r as int),
        decreases m.spec_rows(),
    {
        let n = m.rows;
        if n == 0 {
            return 1;
        }
        if n == 1 {
            return m.data[0][0];
        }
        if n == 2 {
            let a = mul_mod(m.data[0][0], m.data[1][1]);
            let b = mul_mod(m.data[0][1], m.data[1][0]);
            return sub_mod(a, b);
        }
        let mut acc: u64 = 0;
        let mut i: usize = 0;
        while i < n
            invariant
                m.wf(),
                n == m.rows,
                n == m.cols,
                n >= 3,
                i <= n,
                acc as int == cofactor_sum(m@, i as nat),
                is_elem(acc as int),
            decreases n - i,
        {
            let sub = m.remove_row_col(0, i);
            let d = Matrix::det_helper(&sub);
            let t = mul_mod(m.data[0][i], d);
            let term = if i % 2 == 0 { t } else { sub_mod(0, t) };
            acc = add_mod(acc, term);
            i += 1;
        }
        acc
    }

    /// The determinant, by cofactor expansion along the first row. Only a
    /// square matrix has one.
    pub fn det(&self) -> (r: Result<u64, MatrixError>)
        requires
            self.wf(),
        ensures
            r.is_ok() <==> self.spec_rows() == self.spec_cols(),
            r.is_err() ==> r == Err::<u64, MatrixError>(MatrixError::DimensionMismatch),
            r.is_ok() ==> r.unwrap() as int == det(self@),
    {
        if self.rows != self.cols {
            return Err(MatrixError::DimensionMismatch);
        }
        Ok(Matrix::det_helper(self))
    }

    /// The inverse: none where the determinant is zero, else the right half of
    /// the reduced row-echelon form of `[self | I]`. Only a square matrix has
    /// one.
    pub fn inverse(&self) -> (r: Result<Option<Matrix>, MatrixError>)
        requires
            self.wf(),
            2 * self.spec_cols() <= usize::MAX,
        ensures
            r.is_err() <==> self.spec_rows() != self.spec_cols(),
            r.is_err() ==> r == Err::<Option<Matrix>, MatrixError>(MatrixError::DimensionMismatch),
            r == Ok::<Option<Matrix>, MatrixError>(None) <==> (self.spec_rows() == self.spec_cols() && det(self@) == 0),
            r.is_ok() && r.unwrap().is_some() ==> {
                let m = r.unwrap().unwrap();
                &&& m.wf()
                &&& m.same_shape(self)
                &&& m@ == inverse_of(self@)
            },
    {
        if self.rows != self.cols {
            return Err(MatrixError::DimensionMismatch);
        }
        if Matrix::det_helper(self) == 0 {
            return Ok(None);
        }
        let n = self.rows;
        let id = Matrix::ident(n);
        let aug = match Matrix::total(self, &id) {
            Ok(t) => t,
            Err(e) => {
                return Err(e);
            },
        };
        let red = aug.rref();
        let ghost full = rref(augment(self@, identity(n as nat)), 2 * n as nat);
        let mut data: Vec<Vec<u64>> = Vec::new();
        let mut i: usize = 0;
        while i < n
            invariant
                red.wf(),
                red.rows == n,
                red.cols == n + n,
                red@ == full,
                i <= n,
                data@.len() == i,
                forall|a: int| 0 <= a < i ==> (#[trigger] data@[a])@.len() == n,
                forall|a: int, b: int| 0 <= a < i && 0 <= b < n ==>
                    (#[trigger] data@[a]@[b]) == red.data@[a]@[b + n],
            decreases n - i,
        {
            let mut row: Vec<u64> = Vec::new();
            let mut j: usize = 0;
            while j < n
                invariant
                    red.wf(),
                    red.rows == n,
                    red.cols == n + n,
                    i < n,
                    j <= n,
                    row@.len() == j,
                    forall|c: int| 0 <= c < j ==> (#[trigger] row@[c]) == red.data@[i as int]@[c + n],
                decreases n - j,
            {
                row.push(red.data[i][j + n]);
                j += 1;
            }
            data.push(row);
            i += 1;
        }
        let r = Matrix { rows: n, cols: n, data };
        assert(r@ =~~= inverse_of(self@));
        Ok(Some(r))
    }
}

} // verus!
