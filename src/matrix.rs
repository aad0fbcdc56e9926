//! The matrix type: storage, construction, element access, arithmetic and
//! structural transforms.
use vstd::prelude::*;
use crate::field::{add_mod, fadd, fmul, fsub, is_elem, mul_mod, residue, sub_mod, MODULUS};
use crate::model::{augment, dot, identity, is_matrix, is_rectangular, mat_add, mat_hadamard, mat_mul, mat_scale, mat_sub, mat_transpose, minor, skip};

verus! {

/// Why an operation refused its operands.
#[derive(Debug, Clone, Copy, PartialEq, Eq)]
pub enum MatrixError {
    /// The operands' shapes do not fit the operation.
    DimensionMismatch,
    /// A row or column index lies outside the matrix.
    IndexOutOfRange,
}

/// A dense `rows` x `cols` matrix of field elements, stored row by row.
#[derive(Debug, Clone, PartialEq, Eq)]
pub struct Matrix {
    pub(crate) rows: usize,
    pub(crate) cols: usize,
    pub(crate) data: Vec<Vec<u64>>,
}

impl View for Matrix {
    type V = Seq<Seq<int>>;

    open(crate) spec fn view(&self) -> Seq<Seq<int>> {
        Seq::new(self.data@.len(), |i: int| Seq::new(self.data@[i]@.len(), |j: int| self.data@[i]@[j] as int))
    }
}

/// An operation applied entry by entry.
#[derive(Clone, Copy)]
pub(crate) enum ElemOp {
    Add,
    Sub,
    Mul,
}

pub(crate) open spec fn elem_op(op: ElemOp, a: int, b: int) -> int {
    match op {
        ElemOp::Add => fadd(a, b),
        ElemOp::Sub => fsub(a, b),
        ElemOp::Mul => fmul(a, b),
    }
}

pub(crate) fn apply(op: ElemOp, a: u64, b: u64) -> (r: u64)
    requires
        is_elem(a as int),
        is_elem(b as int),
    ensures
        r as int == elem_op(op, a as int, b as int),
{
    match op {
        ElemOp::Add => add_mod(a, b),
        ElemOp::Sub => sub_mod(a, b),
        ElemOp::Mul => mul_mod(a, b),
    }
}

spec fn elementwise_spec(op: ElemOp, a: Seq<Seq<int>>, b: Seq<Seq<int>>) -> Seq<Seq<int>> {
    match op {
        ElemOp::Add => mat_add(a, b),
        ElemOp::Sub => mat_sub(a, b),
        ElemOp::Mul => mat_hadamard(a, b),
    }
}

impl Matrix {
    /// Well-formedness: `rows` rows of `cols` canonical residues each.
    pub open(crate) spec fn wf(&self) -> bool {
        &&& self.data@.len() == self.rows
        &&& forall|i: int| 0 <= i < self.rows ==> (#[trigger] self.data@[i])@.len() == self.cols
        &&& forall|i: int, j: int|
            0 <= i < self.rows && 0 <= j < self.cols ==> is_elem((#[trigger] self.data@[i]@[j]) as int)
    }

    pub open(crate) spec fn spec_rows(&self) -> nat {
        self.rows as nat
    }

    pub open(crate) spec fn spec_cols(&self) -> nat {
        self.cols as nat
    }

    pub proof fn lemma_view(&self)
        requires
            self.wf(),
        ensures
            is_matrix(self@, self.spec_rows(), self.spec_cols()),
    {
    }

    /// The rows as stored: row `i` holds the residues of row `i`.
    pub open(crate) spec fn stored_rows(&self) -> Seq<Vec<u64>> {
        self.data@
    }

    /// An iterator over the rows, first to last.
    pub fn iter(&self) -> (it: std::slice::Iter<'_, Vec<u64>>)
        requires
            self.wf(),
        ensures
            vstd::std_specs::slice::into_iter_elts(it) == self.stored_rows(),
            forall|i: int, j: int| 0 <= i < self.spec_rows() && 0 <= j < self.spec_cols() ==>
                (#[trigger] self.stored_rows()[i]@[j]) as int == self@[i][j],
    {
        let rows = self.data.as_slice();
        let it = rows.iter();
        proof {
            vstd::std_specs::slice::axiom_spec_slice_iter(rows);
        }
        it
    }

    /// The number of rows.
    pub fn rows(&self) -> (r: usize)
        ensures
            r == self.spec_rows(),
    {
        self.rows
    }

    /// The number of columns.
    pub fn cols(&self) -> (r: usize)
        ensures
            r == self.spec_cols(),
    {
        self.cols
    }

    /// The `rows` x `cols` matrix of zeros.
    pub fn zeros(rows: usize, cols: usize) -> (r: Matrix)
        ensures
            r.wf(),
            r.spec_rows() == rows,
            r.spec_cols() == cols,
            r@ == Seq::new(rows as nat, |i: int| Seq::new(cols as nat, |j: int| 0int)),
    {
        let mut data: Vec<Vec<u64>> = Vec::new();
        let mut i: usize = 0;
        while i < rows
            invariant
                i <= rows,
                data@.len() == i,
                forall|k: int| 0 <= k < i ==> (#[trigger] data@[k])@ == Seq::new(cols as nat, |j: int| 0u64),
            decreases rows - i,
        {
            let mut row: Vec<u64> = Vec::new();
            let mut j: usize = 0;
            while j < cols
                invariant
                    j <= cols,
                    row@ == Seq::new(j as nat, |c: int| 0u64),
                decreases cols - j,
            {
                row.push(0);
                j += 1;
                assert(row@ =~= Seq::new(j as nat, |c: int| 0u64));
            }
            data.push(row);
            i += 1;
        }
        let r = Matrix { rows, cols, data };
        assert(r@ =~~= Seq::new(rows as nat, |i: int| Seq::new(cols as nat, |j: int| 0int)));
        r
    }

    /// The `n` x `n` identity matrix.
    pub fn ident(n: usize) -> (r: Matrix)
        ensures
            r.wf(),
            r.spec_rows() == n,
            r.spec_cols() == n,
            r@ == identity(n as nat),
    {
        let mut data: Vec<Vec<u64>> = Vec::new();
        let mut i: usize = 0;
        while i < n
            invariant
                i <= n,
                data@.len() == i,
                forall|k: int| 0 <= k < i ==> (#[trigger] data@[k])@
                    == Seq::new(n as nat, |j: int| if j == k { 1u64 } else { 0u64 }),
            decreases n - i,
        {
            let mut row: Vec<u64> = Vec::new();
            let mut j: usize = 0;
            while j < n
                invariant
                    j <= n,
                    i < n,
                    row@ == Seq::new(j as nat, |c: int| if c == i { 1u64 } else { 0u64 }),
                decreases n - j,
            {
                row.push(if j == i { 1 } else { 0 });
                j += 1;
                assert(row@ =~= Seq::new(j as nat, |c: int| if c == i { 1u64 } else { 0u64 }));
            }
            data.push(row);
            i += 1;
        }
        let r = Matrix { rows: n, cols: n, data };
        assert(r@ =~~= identity(n as nat));
        r
    }

    /// Builds a matrix from its rows, reducing each entry modulo the field's
    /// characteristic. Rows of unequal length are refused.
    pub fn from_rows(rows: Vec<Vec<i64>>) -> (r: Result<Matrix, MatrixError>)
        ensures
            r.is_ok() <==> is_rectangular(rows@.map_values(|v: Vec<i64>| v@)),
            r.is_err() ==> r == Err::<Matrix, MatrixError>(MatrixError::DimensionMismatch),
            r.is_ok() ==> {
                let m = r.unwrap();
                &&& m.wf()
                &&& m.spec_rows() == rows@.len()
                &&& (rows@.len() > 0 ==> m.spec_cols() == rows@[0]@.len())
                &&& m@ == Seq::new(rows@.len(), |i: int| Seq::new(rows@[i]@.len(), |j: int| rows@[i]@[j] as int % (MODULUS as int)))
            },
    {
        let ghost src = rows@.map_values(|v: Vec<i64>| v@);
        let n = rows.len();
        let cols: usize = if n == 0 { 0 } else { rows[0].len() };
        let mut data: Vec<Vec<u64>> = Vec::new();
        let mut i: usize = 0;
        while i < n
            invariant
                n == rows@.len(),
                src == rows@.map_values(|v: Vec<i64>| v@),
                n > 0 ==> cols == rows@[0]@.len(),
                i <= n,
                data@.len() == i,
                forall|k: int| 0 <= k < i ==> (#[trigger] rows@[k])@.len() == cols,
                forall|k: int| 0 <= k < i ==> (#[trigger] data@[k])@.len() == cols,
                forall|k: int, j: int| 0 <= k < i && 0 <= j < cols ==>
                    (#[trigger] data@[k]@[j]) as int == rows@[k]@[j] as int % (MODULUS as int),
            decreases n - i,
        {
            if rows[i].len() != cols {
                assert(src[i as int].len() != src[0].len());
                return Err(MatrixError::DimensionMismatch);
            }
            let mut row: Vec<u64> = Vec::new();
            let mut j: usize = 0;
            while j < cols
                invariant
                    i < n,
                    n == rows@.len(),
                    rows@[i as int]@.len() == cols,
                    j <= cols,
                    row@.len() == j,
                    forall|c: int| 0 <= c < j ==> (#[trigger] row@[c]) as int == rows@[i as int]@[c] as int % (MODULUS as int),
                decreases cols - j,
            {
                row.push(residue(rows[i][j]));
                j += 1;
            }
            data.push(row);
            i += 1;
        }
        let r = Matrix { rows: n, cols, data };
        assert(is_rectangular(src));
        assert(r@ =~~= Seq::new(rows@.len(), |i: int| Seq::new(rows@[i]@.len(), |j: int| rows@[i]@[j] as int % (MODULUS as int))));
        Ok(r)
    }

    /// The entry at row `i`, column `j`.
    pub fn get(&self, i: usize, j: usize) -> (r: Result<u64, MatrixError>)
        requires
            self.wf(),
        ensures
            r.is_ok() <==> (i < self.spec_rows() && j < self.spec_cols()),
            r.is_ok() ==> r.unwrap() as int == self@[i as int][j as int],
            r.is_err() ==> r == Err::<u64, MatrixError>(MatrixError::IndexOutOfRange),
    {
        if i < self.rows && j < self.cols {
            Ok(self.data[i][j])
        } else {
            Err(MatrixError::IndexOutOfRange)
        }
    }

    /// Whether the two matrices have the same shape.
    pub open(crate) spec fn same_shape(&self, rhs: &Matrix) -> bool {
        self.spec_rows() == rhs.spec_rows() && self.spec_cols() == rhs.spec_cols()
    }

    fn elementwise(&self, rhs: &Matrix, op: ElemOp) -> (r: Matrix)
        requires
            self.wf(),
            rhs.wf(),
            self.same_shape(rhs),
        ensures
            r.wf(),
            r.same_shape(self),
            r@ == elementwise_spec(op, self@, rhs@),
    {
        let mut data: Vec<Vec<u64>> = Vec::new();
        let mut i: usize = 0;
        while i < self.rows
            invariant
                self.wf(),
                rhs.wf(),
                self.same_shape(rhs),
                i <= self.rows,
                data@.len() == i,
                forall|k: int| 0 <= k < i ==> (#[trigger] data@[k])@.len() == self.cols,
                forall|k: int, j: int| 0 <= k < i && 0 <= j < self.cols ==>
                    (#[trigger] data@[k]@[j]) as int == elem_op(op, self.data@[k]@[j] as int, rhs.data@[k]@[j] as int),
            decreases self.rows - i,
        {
            let mut row: Vec<u64> = Vec::new();
            let mut j: usize = 0;
            while j < self.cols
                invariant
                    self.wf(),
                    rhs.wf(),
                    self.same_shape(rhs),
                    i < self.rows,
                    j <= self.cols,
                    row@.len() == j,
                    forall|c: int| 0 <= c < j ==>
                        (#[trigger] row@[c]) as int == elem_op(op, self.data@[i as int]@[c] as int, rhs.data@[i as int]@[c] as int),
                decreases self.cols - j,
            {
                row.push(apply(op, self.data[i][j], rhs.data[i][j]));
                j += 1;
            }
            data.push(row);
            i += 1;
        }
        let r = Matrix { rows: self.rows, cols: self.cols, data };
        assert(r@ =~~= elementwise_spec(op, self@, rhs@));
        r
    }

    /// The entry-by-entry sum.
    pub fn add(&self, rhs: &Matrix) -> (r: Result<Matrix, MatrixError>)
        requires
            self.wf(),
            rhs.wf(),
        ensures
            r.is_ok() <==> self.same_shape(rhs),
            r.is_err() ==> r == Err::<Matrix, MatrixError>(MatrixError::DimensionMismatch),
            r.is_ok() ==> r.unwrap().wf() && r.unwrap().same_shape(self) && r.unwrap()@ == mat_add(self@, rhs@),
    {
        if self.rows != rhs.rows || self.cols != rhs.cols {
            return Err(MatrixError::DimensionMismatch);
        }
        Ok(self.elementwise(rhs, ElemOp::Add))
    }

    /// The entry-by-entry difference.
    pub fn sub(&self, rhs: &Matrix) -> (r: Result<Matrix, MatrixError>)
        requires
            self.wf(),
            rhs.wf(),
        ensures
            r.is_ok() <==> self.same_shape(rhs),
            r.is_err() ==> r == Err::<Matrix, MatrixError>(MatrixError::DimensionMismatch),
            r.is_ok() ==> r.unwrap().wf() && r.unwrap().same_shape(self) && r.unwrap()@ == mat_sub(self@, rhs@),
    {
        if self.rows != rhs.rows || self.cols != rhs.cols {
            return Err(MatrixError::DimensionMismatch);
        }
        Ok(self.elementwise(rhs, ElemOp::Sub))
    }

    /// Adds `rhs` to this matrix in place; on a shape mismatch nothing changes.
    pub fn add_assign(&mut self, rhs: &Matrix) -> (r: Result<(), MatrixError>)
        requires
            old(self).wf(),
            rhs.wf(),
        ensures
            final(self).wf(),
            final(self).same_shape(old(self)),
            r.is_ok() <==> old(self).same_shape(rhs),
            r.is_ok() ==> final(self)@ == mat_add(old(self)@, rhs@),
            r.is_err() ==> r == Err::<(), MatrixError>(MatrixError::DimensionMismatch) && *final(self) == *old(self),
    {
        if self.rows != rhs.rows || self.cols != rhs.cols {
            return Err(MatrixError::DimensionMismatch);
        }
        *self = self.elementwise(rhs, ElemOp::Add);
        Ok(())
    }

    /// Subtracts `rhs` from this matrix in place; on a shape mismatch nothing
    /// changes.
    pub fn sub_assign(&mut self, rhs: &Matrix) -> (r: Result<(), MatrixError>)
        requires
            old(self).wf(),
            rhs.wf(),
        ensures
            final(self).wf(),
            final(self).same_shape(old(self)),
            r.is_ok() <==> old(self).same_shape(rhs),
            r.is_ok() ==> final(self)@ == mat_sub(old(self)@, rhs@),
            r.is_err() ==> r == Err::<(), MatrixError>(MatrixError::DimensionMismatch) && *final(self) == *old(self),
    {
        if self.rows != rhs.rows || self.cols != rhs.cols {
            return Err(MatrixError::DimensionMismatch);
        }
        *self = self.elementwise(rhs, ElemOp::Sub);
        Ok(())
    }

    /// Multiplies this matrix by `rhs` entry by entry, in place; on a shape
    /// mismatch nothing changes.
    pub fn mul_assign(&mut self, rhs: &Matrix) -> (r: Result<(), MatrixError>)
        requires
            old(self).wf(),
            rhs.wf(),
        ensures
            final(self).wf(),
            final(self).same_shape(old(self)),
            r.is_ok() <==> old(self).same_shape(rhs),
            r.is_ok() ==> final(self)@ == mat_hadamard(old(self)@, rhs@),
            r.is_err() ==> r == Err::<(), MatrixError>(MatrixError::DimensionMismatch) && *final(self) == *old(self),
    {
        if self.rows != rhs.rows || self.cols != rhs.cols {
            return Err(MatrixError::DimensionMismatch);
        }
        *self = self.elementwise(rhs, ElemOp::Mul);
        Ok(())
    }

    /// Every entry multiplied by the scalar `k` (reduced into the field).
    pub fn scale(&self, k: i64) -> (r: Matrix)
        requires
            self.wf(),
        ensures
            r.wf(),
            r.same_shape(self),
            r@ == mat_scale(self@, k as int % (MODULUS as int)),
    {
        let kr = residue(k);
        let mut data: Vec<Vec<u64>> = Vec::new();
        let mut i: usize = 0;
        while i < self.rows
            invariant
                self.wf(),
                is_elem(kr as int),
                i <= self.rows,
                data@.len() == i,
                forall|a: int| 0 <= a < i ==> (#[trigger] data@[a])@.len() == self.cols,
                forall|a: int, j: int| 0 <= a < i && 0 <= j < self.cols ==>
                    (#[trigger] data@[a]@[j]) as int == fmul(self.data@[a]@[j] as int, kr as int),
            decreases self.rows - i,
        {
            let mut row: Vec<u64> = Vec::new();
            let mut j: usize = 0;
            while j < self.cols
                invariant
                    self.wf(),
                    is_elem(kr as int),
                    i < self.rows,
                    j <= self.cols,
                    row@.len() == j,
                    forall|c: int| 0 <= c < j ==>
                        (#[trigger] row@[c]) as int == fmul(self.data@[i as int]@[c] as int, kr as int),
                decreases self.cols - j,
            {
                row.push(mul_mod(self.data[i][j], kr));
                j += 1;
            }
            data.push(row);
            i += 1;
        }
        let r = Matrix { rows: self.rows, cols: self.cols, data };
        assert(r@ =~~= mat_scale(self@, k as int % (MODULUS as int)));
        r
    }

    /// The matrix product: entry `(i, j)` is the sum over `n` of
    /// `self[i][n] * rhs[n][j]`, accumulated from left to right.
    pub fn mul(&self, rhs: &Matrix) -> (r: Result<Matrix, MatrixError>)
        requires
            self.wf(),
            rhs.wf(),
        ensures
            r.is_ok() <==> self.spec_cols() == rhs.spec_rows(),
            r.is_err() ==> r == Err::<Matrix, MatrixError>(MatrixError::DimensionMismatch),
            r.is_ok() ==> {
                let m = r.unwrap();
                &&& m.wf()
                &&& m.spec_rows() == self.spec_rows()
                &&& m.spec_cols() == rhs.spec_cols()
                &&& m@ == mat_mul(self@, rhs@, rhs.spec_cols())
            },
    {
        if self.cols != rhs.rows {
            return Err(MatrixError::DimensionMismatch);
        }
        let mut data: Vec<Vec<u64>> = Vec::new();
        let mut i: usize = 0;
        while i < self.rows
            invariant
                self.wf(),
                rhs.wf(),
                self.cols == rhs.rows,
                i <= self.rows,
                data@.len() == i,
                forall|a: int| 0 <= a < i ==> (#[trigger] data@[a])@.len() == rhs.cols,
                forall|a: int, j: int| 0 <= a < i && 0 <= j < rhs.cols ==>
                    (#[trigger] data@[a]@[j]) as int == dot(self@, rhs@, a, j, rhs.rows as nat),
            decreases self.rows - i,
        {
            let mut row: Vec<u64> = Vec::new();
            let mut j: usize = 0;
            while j < rhs.cols
                invariant
                    self.wf(),
                    rhs.wf(),
                    self.cols == rhs.rows,
                    i < self.rows,
                    j <= rhs.cols,
                    row@.len() == j,
                    forall|c: int| 0 <= c < j ==>
                        (#[trigger] row@[c]) as int == dot(self@, rhs@, i as int, c, rhs.rows as nat),
                decreases rhs.cols - j,
            {
                let mut acc: u64 = 0;
                let mut n: usize = 0;
                while n < self.cols
                    invariant
                        self.wf(),
                        rhs.wf(),
                        self.cols == rhs.rows,
                        i < self.rows,
                        j < rhs.cols,
                        n <= self.cols,
                        acc as int == dot(self@, rhs@, i as int, j as int, n as nat),
                    decreases self.cols - n,
                {
                    let t = mul_mod(self.data[i][n], rhs.data[n][j]);
                    acc = add_mod(acc, t);
                    n += 1;
                }
                row.push(acc);
                j += 1;
            }
            data.push(row);
            i += 1;
        }
        let r = Matrix { rows: self.rows, cols: rhs.cols, data };
        assert(r@ =~~= mat_mul(self@, rhs@, rhs.cols as nat));
        Ok(r)
    }

    /// The `cols` x `rows` matrix with entry `(j, i)` equal to entry `(i, j)`
    /// of this one.
    pub fn transpose(&self) -> (r: Matrix)
        requires
            self.wf(),
        ensures
            r.wf(),
            r.spec_rows() == self.spec_cols(),
            r.spec_cols() == self.spec_rows(),
            r@ == mat_transpose(self@, self.spec_cols()),
    {
        let mut data: Vec<Vec<u64>> = Vec::new();
        let mut j: usize = 0;
        while j < self.cols
            invariant
                self.wf(),
                j <= self.cols,
                data@.len() == j,
                forall|a: int| 0 <= a < j ==> (#[trigger] data@[a])@.len() == self.rows,
                forall|a: int, b: int| 0 <= a < j && 0 <= b < self.rows ==>
                    (#[trigger] data@[a]@[b]) == self.data@[b]@[a],
            decreases self.cols - j,
        {
            let mut row: Vec<u64> = Vec::new();
            let mut i: usize = 0;
            while i < self.rows
                invariant
                    self.wf(),
                    j < self.cols,
                    i <= self.rows,
                    row@.len() == i,
                    forall|c: int| 0 <= c < i ==> (#[trigger] row@[c]) == self.data@[c]@[j as int],
                decreases self.rows - i,
            {
                row.push(self.data[i][j]);
                i += 1;
            }
            data.push(row);
            j += 1;
        }
        let r = Matrix { rows: self.cols, cols: self.rows, data };
        assert(r@ =~~= mat_transpose(self@, self.cols as nat));
        r
    }

    /// Sets the entry at row `i`, column `j` to `v` (reduced into the field).
    pub fn set(&mut self, i: usize, j: usize, v: i64) -> (r: Result<(), MatrixError>)
        requires
            old(self).wf(),
        ensures
            final(self).wf(),
            final(self).same_shape(old(self)),
            r.is_ok() <==> (i < old(self).spec_rows() && j < old(self).spec_cols()),
            r.is_ok() ==> final(self)@ == old(self)@.update(
                i as int,
                old(self)@[i as int].update(j as int, v as int % (MODULUS as int)),
            ),
            r.is_err() ==> r == Err::<(), MatrixError>(MatrixError::IndexOutOfRange) && *final(self) == *old(self),
    {
        if i >= self.rows || j >= self.cols {
            return Err(MatrixError::IndexOutOfRange);
        }
        let ghost before = self@;
        let mut row: Vec<u64> = Vec::new();
        self.data.set_and_swap(i, &mut row);
        row.set(j, residue(v));
        self.data.set(i, row);
        assert(self@ =~~= before.update(i as int, before[i as int].update(j as int, v as int % (MODULUS as int))));
        Ok(())
    }

    /// The matrix whose rows are those of `lhs` followed by those of `rhs`,
    /// column by column: `lhs`'s columns come first.
    pub fn total(lhs: &Matrix, rhs: &Matrix) -> (r: Result<Matrix, MatrixError>)
        requires
            lhs.wf(),
            rhs.wf(),
        ensures
            r.is_ok() <==> lhs.spec_rows() == rhs.spec_rows() && lhs.spec_cols() + rhs.spec_cols() <= usize::MAX,
            r.is_err() ==> r == Err::<Matrix, MatrixError>(MatrixError::DimensionMismatch),
            r.is_ok() ==> {
                let m = r.unwrap();
                &&& m.wf()
                &&& m.spec_rows() == lhs.spec_rows()
                &&& m.spec_cols() == lhs.spec_cols() + rhs.spec_cols()
                &&& m@ == augment(lhs@, rhs@)
            },
    {
        if lhs.rows != rhs.rows || lhs.cols > usize::MAX - rhs.cols {
            return Err(MatrixError::DimensionMismatch);
        }
        let cols = lhs.cols + rhs.cols;
        let mut data: Vec<Vec<u64>> = Vec::new();
        let mut i: usize = 0;
        while i < lhs.rows
            invariant
                lhs.wf(),
                rhs.wf(),
                lhs.rows == rhs.rows,
                cols == lhs.cols + rhs.cols,
                i <= lhs.rows,
                data@.len() == i,
                forall|a: int| 0 <= a < i ==> (#[trigger] data@[a])@ == lhs.data@[a]@ + rhs.data@[a]@,
            decreases lhs.rows - i,
        {
            let mut row: Vec<u64> = Vec::new();
            let mut j: usize = 0;
            while j < lhs.cols
                invariant
                    lhs.wf(),
                    i < lhs.rows,
                    j <= lhs.cols,
                    row@ == lhs.data@[i as int]@.subrange(0, j as int),
                decreases lhs.cols - j,
            {
                row.push(lhs.data[i][j]);
                j += 1;
                assert(row@ =~= lhs.data@[i as int]@.subrange(0, j as int));
            }
            let mut k: usize = 0;
            while k < rhs.cols
                invariant
                    lhs.wf(),
                    rhs.wf(),
                    lhs.rows == rhs.rows,
                    i < lhs.rows,
                    k <= rhs.cols,
                    row@ == lhs.data@[i as int]@ + rhs.data@[i as int]@.subrange(0, k as int),
                decreases rhs.cols - k,
            {
                row.push(rhs.data[i][k]);
                k += 1;
                assert(row@ =~= lhs.data@[i as int]@ + rhs.data@[i as int]@.subrange(0, k as int));
            }
            assert(rhs.data@[i as int]@.subrange(0, rhs.cols as int) =~= rhs.data@[i as int]@);
            data.push(row);
            i += 1;
        }
        let r = Matrix { rows: lhs.rows, cols, data };
        assert forall|a: int, b: int| 0 <= a < r.rows && 0 <= b < r.cols implies is_elem(
            (#[trigger] r.data@[a]@[b]) as int,
        ) by {
            if b >= lhs.cols {
                assert(r.data@[a]@[b] == rhs.data@[a]@[b - lhs.cols]);
            }
        }
        assert(r@ =~~= augment(lhs@, rhs@));
        Ok(r)
    }

    /// This matrix without row `row` and column `col`; the other rows and
    /// columns keep their order.
    pub fn sub_matrix(&self, row: usize, col: usize) -> (r: Result<Matrix, MatrixError>)
        requires
            self.wf(),
        ensures
            r.is_ok() <==> row < self.spec_rows() && col < self.spec_cols(),
            r.is_err() ==> r == Err::<Matrix, MatrixError>(MatrixError::IndexOutOfRange),
            r.is_ok() ==> {
                let m = r.unwrap();
                &&& m.wf()
                &&& m.spec_rows() == self.spec_rows() - 1
                &&& m.spec_cols() == self.spec_cols() - 1
                &&& m@ == minor(self@, row as int, col as int)
            },
    {
        if row >= self.rows || col >= self.cols {
            return Err(MatrixError::IndexOutOfRange);
        }
        Ok(self.remove_row_col(row, col))
    }

    pub(crate) fn remove_row_col(&self, row: usize, col: usize) -> (r: Matrix)
        requires
            self.wf(),
            row < self.spec_rows(),
            col < self.spec_cols(),
        ensures
            r.wf(),
            r.spec_rows() == self.spec_rows() - 1,
            r.spec_cols() == self.spec_cols() - 1,
            r@ == minor(self@, row as int, col as int),
    {
        let mut data: Vec<Vec<u64>> = Vec::new();
        let mut i: usize = 0;
        while i < self.rows - 1
            invariant
                self.wf(),
                row < self.rows,
                col < self.cols,
                i <= self.rows - 1,
                data@.len() == i,
                forall|a: int| 0 <= a < i ==> (#[trigger] data@[a])@.len() == self.cols - 1,
                forall|a: int, b: int| 0 <= a < i && 0 <= b < self.cols - 1 ==>
                    (#[trigger] data@[a]@[b]) == self.data@[skip(a, row as int)]@[skip(b, col as int)],
            decreases self.rows - 1 - i,
        {
            let si: usize = if i < row { i } else { i + 1 };
            let mut out: Vec<u64> = Vec::new();
            let mut j: usize = 0;
            while j < self.cols - 1
                invariant
                    self.wf(),
                    col < self.cols,
                    si < self.rows,
                    si == skip(i as int, row as int),
                    j <= self.cols - 1,
                    out@.len() == j,
                    forall|c: int| 0 <= c < j ==> (#[trigger] out@[c]) == self.data@[si as int]@[skip(c, col as int)],
                decreases self.cols - 1 - j,
            {
                let sj: usize = if j < col { j } else { j + 1 };
                out.push(self.data[si][sj]);
                j += 1;
            }
            data.push(out);
            i += 1;
        }
        let r = Matrix { rows: self.rows - 1, cols: self.cols - 1, data };
        assert(r@ =~~= minor(self@, row as int, col as int));
        r
    }
}

} // verus!
