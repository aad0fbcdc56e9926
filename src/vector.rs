//! Fixed-length vectors of field elements, and their conversion to and from
//! single-column matrices.
use vstd::prelude::*;
use crate::field::{add_mod, fadd, fmul, fsub, is_elem, mul_mod, residue, sub_mod, MODULUS};
use crate::matrix::{apply, elem_op, ElemOp, Matrix, MatrixError};

verus! {

/// A vector of field elements.
#[derive(Debug, Clone, PartialEq, Eq)]
pub struct Vector {
    pub(crate) vec: Vec<u64>,
}

impl View for Vector {
    type V = Seq<int>;

    open(crate) spec fn view(&self) -> Seq<int> {
        Seq::new(self.vec@.len(), |i: int| self.vec@[i] as int)
    }
}

/// The entry-by-entry combination of two vectors.
pub(crate) open spec fn vec_elementwise(op: ElemOp, a: Seq<int>, b: Seq<int>) -> Seq<int> {
    Seq::new(a.len(), |i: int| elem_op(op, a[i], b[i]))
}

pub open spec fn vec_add(a: Seq<int>, b: Seq<int>) -> Seq<int> {
    Seq::new(a.len(), |i: int| fadd(a[i], b[i]))
}

pub open spec fn vec_sub(a: Seq<int>, b: Seq<int>) -> Seq<int> {
    Seq::new(a.len(), |i: int| fsub(a[i], b[i]))
}

pub open spec fn vec_scale(a: Seq<int>, k: int) -> Seq<int> {
    Seq::new(a.len(), |i: int| fmul(a[i], k))
}

/// The sum of the first `k` products `a[n] * b[n]`, from left to right.
pub open spec fn vec_dot(a: Seq<int>, b: Seq<int>, k: nat) -> int
    decreases k,
{
    if k == 0 {
        0
    } else {
        fadd(vec_dot(a, b, (k - 1) as nat), fmul(a[k - 1], b[k - 1]))
    }
}

/// The cross product of two vectors of length three.
pub open spec fn cross(a: Seq<int>, b: Seq<int>) -> Seq<int> {
    seq![
        fsub(fmul(a[1], b[2]), fmul(a[2], b[1])),
        fsub(fmul(a[2], b[0]), fmul(a[0], b[2])),
        fsub(fmul(a[0], b[1]), fmul(a[1], b[0])),
    ]
}

/// The single-column matrix holding `v`.
pub open spec fn column_of(v: Seq<int>) -> Seq<Seq<int>> {
    Seq::new(v.len(), |i: int| seq![v[i]])
}

/// The first column of `m`.
pub open spec fn first_column(m: Seq<Seq<int>>) -> Seq<int> {
    Seq::new(m.len(), |i: int| m[i][0])
}

impl Vector {
    /// Every entry is a canonical residue.
    pub open(crate) spec fn wf(&self) -> bool {
        forall|i: int| 0 <= i < self.vec@.len() ==> is_elem(#[trigger] self.vec@[i] as int)
    }

    pub open(crate) spec fn spec_len(&self) -> nat {
        self.vec@.len()
    }

    /// A vector from its entries, each reduced into the field.
    pub fn from_values(values: Vec<i64>) -> (r: Vector)
        ensures
            r.wf(),
            r@ == Seq::new(values@.len(), |i: int| values@[i] as int % (MODULUS as int)),
    {
        let mut vec: Vec<u64> = Vec::new();
        let mut i: usize = 0;
        while i < values.len()
            invariant
                i <= values@.len(),
                vec@.len() == i,
                forall|k: int| 0 <= k < i ==> (#[trigger] vec@[k]) as int == values@[k] as int % (MODULUS as int),
            decreases values@.len() - i,
        {
            vec.push(residue(values[i]));
            i += 1;
        }
        let r = Vector { vec };
        assert(r@ =~= Seq::new(values@.len(), |i: int| values@[i] as int % (MODULUS as int)));
        r
    }

    /// The entries, as residues.
    pub fn vec(self) -> (r: Vec<u64>)
        ensures
            r@.len() == self@.len(),
            forall|i: int| 0 <= i < r@.len() ==> (#[trigger] r@[i]) as int == self@[i],
    {
        self.vec
    }

    /// An iterator over the entries, first to last.
    pub fn iter(&self) -> (it: std::slice::Iter<'_, u64>)
        ensures
            vstd::std_specs::slice::into_iter_elts(it).len() == self@.len(),
            forall|i: int| 0 <= i < self@.len() ==>
                (#[trigger] vstd::std_specs::slice::into_iter_elts(it)[i]) as int == self@[i],
    {
        let values = self.vec.as_slice();
        let it = values.iter();
        proof {
            vstd::std_specs::slice::axiom_spec_slice_iter(values);
        }
        it
    }

    /// The number of entries.
    pub fn len(&self) -> (r: usize)
        ensures
            r == self@.len(),
    {
        self.vec.len()
    }

    /// The entry at index `i`.
    pub fn get(&self, i: usize) -> (r: Result<u64, MatrixError>)
        ensures
            r.is_ok() <==> i < self@.len(),
            r.is_ok() ==> r.unwrap() as int == self@[i as int],
            r.is_err() ==> r == Err::<u64, MatrixError>(MatrixError::IndexOutOfRange),
    {
        if i < self.vec.len() {
            Ok(self.vec[i])
        } else {
            Err(MatrixError::IndexOutOfRange)
        }
    }

    fn elementwise(&self, rhs: &Vector, op: ElemOp) -> (r: Vector)
        requires
            self.wf(),
            rhs.wf(),
            self@.len() == rhs@.len(),
        ensures
            r.wf(),
            r@ == vec_elementwise(op, self@, rhs@),
    {
        let mut vec: Vec<u64> = Vec::new();
        let mut i: usize = 0;
        while i < self.vec.len()
            invariant
                self.wf(),
                rhs.wf(),
                self@.len() == rhs@.len(),
                i <= self.vec@.len(),
                vec@.len() == i,
                forall|k: int| 0 <= k < i ==> (#[trigger] vec@[k]) as int == elem_op(op, self@[k], rhs@[k]),
            decreases self.vec@.len() - i,
        {
            vec.push(apply(op, self.vec[i], rhs.vec[i]));
            i += 1;
        }
        let r = Vector { vec };
        assert(r@ =~= vec_elementwise(op, self@, rhs@));
        r
    }

    /// The entry-by-entry sum.
    pub fn add(&self, rhs: &Vector) -> (r: Result<Vector, MatrixError>)
        requires
            self.wf(),
            rhs.wf(),
        ensures
            r.is_ok() <==> self@.len() == rhs@.len(),
            r.is_err() ==> r == Err::<Vector, MatrixError>(MatrixError::DimensionMismatch),
            r.is_ok() ==> r.unwrap().wf() && r.unwrap()@ == vec_add(self@, rhs@),
    {
        if self.vec.len() != rhs.vec.len() {
            return Err(MatrixError::DimensionMismatch);
        }
        let r = self.elementwise(rhs, ElemOp::Add);
        assert(r@ =~= vec_add(self@, rhs@));
        Ok(r)
    }

    /// The entry-by-entry difference.
    pub fn sub(&self, rhs: &Vector) -> (r: Result<Vector, MatrixError>)
        requires
            self.wf(),
            rhs.wf(),
        ensures
            r.is_ok() <==> self@.len() == rhs@.len(),
            r.is_err() ==> r == Err::<Vector, MatrixError>(MatrixError::DimensionMismatch),
            r.is_ok() ==> r.unwrap().wf() && r.unwrap()@ == vec_sub(self@, rhs@),
    {
        if self.vec.len() != rhs.vec.len() {
            return Err(MatrixError::DimensionMismatch);
        }
        let r = self.elementwise(rhs, ElemOp::Sub);
        assert(r@ =~= vec_sub(self@, rhs@));
        Ok(r)
    }

    /// Adds `rhs` in place; on a length mismatch nothing changes.
    pub fn add_assign(&mut self, rhs: &Vector) -> (r: Result<(), MatrixError>)
        requires
            old(self).wf(),
            rhs.wf(),
        ensures
            final(self).wf(),
            r.is_ok() <==> old(self)@.len() == rhs@.len(),
            r.is_ok() ==> final(self)@ == vec_add(old(self)@, rhs@),
            r.is_err() ==> r == Err::<(), MatrixError>(MatrixError::DimensionMismatch) && *final(self) == *old(self),
    {
        if self.vec.len() != rhs.vec.len() {
            return Err(MatrixError::DimensionMismatch);
        }
        let r = self.elementwise(rhs, ElemOp::Add);
        assert(r@ =~= vec_add(self@, rhs@));
        *self = r;
        Ok(())
    }

    /// Subtracts `rhs` in place; on a length mismatch nothing changes.
    pub fn sub_assign(&mut self, rhs: &Vector) -> (r: Result<(), MatrixError>)
        requires
            old(self).wf(),
            rhs.wf(),
        ensures
            final(self).wf(),
            r.is_ok() <==> old(self)@.len() == rhs@.len(),
            r.is_ok() ==> final(self)@ == vec_sub(old(self)@, rhs@),
            r.is_err() ==> r == Err::<(), MatrixError>(MatrixError::DimensionMismatch) && *final(self) == *old(self),
    {
        if self.vec.len() != rhs.vec.len() {
            return Err(MatrixError::DimensionMismatch);
        }
        let r = self.elementwise(rhs, ElemOp::Sub);
        assert(r@ =~= vec_sub(self@, rhs@));
        *self = r;
        Ok(())
    }

    /// Every entry multiplied by the scalar `k` (reduced into the field).
    pub fn scale(&self, k: i64) -> (r: Vector)
        requires
            self.wf(),
        ensures
            r.wf(),
            r@ == vec_scale(self@, k as int % (MODULUS as int)),
    {
        let kr = residue(k);
        let mut vec: Vec<u64> = Vec::new();
        let mut i: usize = 0;
        while i < self.vec.len()
            invariant
                self.wf(),
                is_elem(kr as int),
                i <= self.vec@.len(),
                vec@.len() == i,
                forall|j: int| 0 <= j < i ==> (#[trigger] vec@[j]) as int == fmul(self@[j], kr as int),
            decreases self.vec@.len() - i,
        {
            vec.push(mul_mod(self.vec[i], kr));
            i += 1;
        }
        let r = Vector { vec };
        assert(r@ =~= vec_scale(self@, k as int % (MODULUS as int)));
        r
    }

    /// Multiplies every entry by the scalar `k` in place.
    pub fn scale_assign(&mut self, k: i64)
        requires
            old(self).wf(),
        ensures
            final(self).wf(),
            final(self)@ == vec_scale(old(self)@, k as int % (MODULUS as int)),
    {
        *self = self.scale(k);
    }

    /// The dot product, accumulated from left to right.
    pub fn dot(&self, rhs: &Vector) -> (r: Result<u64, MatrixError>)
        requires
            self.wf(),
            rhs.wf(),
        ensures
            r.is_ok() <==> self@.len() == rhs@.len(),
            r.is_err() ==> r == Err::<u64, MatrixError>(MatrixError::DimensionMismatch),
            r.is_ok() ==> r.unwrap() as int == vec_dot(self@, rhs@, self@.len()),
    {
        if self.vec.len() != rhs.vec.len() {
            return Err(MatrixError::DimensionMismatch);
        }
        let mut acc: u64 = 0;
        let mut i: usize = 0;
        while i < self.vec.len()
            invariant
                self.wf(),
                rhs.wf(),
                self@.len() == rhs@.len(),
                i <= self.vec@.len(),
                acc as int == vec_dot(self@, rhs@, i as nat),
                is_elem(acc as int),
            decreases self.vec@.len() - i,
        {
            let t = mul_mod(self.vec[i], rhs.vec[i]);
            acc = add_mod(acc, t);
            i += 1;
        }
        Ok(acc)
    }

    /// The cross product; both vectors must have length three.
    pub fn crossp(&self, rhs: &Vector) -> (r: Result<Vector, MatrixError>)
        requires
            self.wf(),
            rhs.wf(),
        ensures
            r.is_ok() <==> self@.len() == 3 && rhs@.len() == 3,
            r.is_err() ==> r == Err::<Vector, MatrixError>(MatrixError::DimensionMismatch),
            r.is_ok() ==> r.unwrap().wf() && r.unwrap()@ == cross(self@, rhs@),
    {
        if self.vec.len() != 3 || rhs.vec.len() != 3 {
            return Err(MatrixError::DimensionMismatch);
        }
        let a = &self.vec;
        let b = &rhs.vec;
        let mut vec: Vec<u64> = Vec::new();
        vec.push(sub_mod(mul_mod(a[1], b[2]), mul_mod(a[2], b[1])));
        vec.push(sub_mod(mul_mod(a[2], b[0]), mul_mod(a[0], b[2])));
        vec.push(sub_mod(mul_mod(a[0], b[1]), mul_mod(a[1], b[0])));
        let r = Vector { vec };
        assert(r@ =~= cross(self@, rhs@));
        Ok(r)
    }
}

impl Matrix {
    /// The single-column matrix holding the vector's entries.
    pub fn from_vector(v: &Vector) -> (r: Matrix)
        requires
            v.wf(),
        ensures
            r.wf(),
            r.spec_rows() == v@.len(),
            r.spec_cols() == 1,
            r@ == column_of(v@),
    {
        let mut data: Vec<Vec<u64>> = Vec::new();
        let mut i: usize = 0;
        while i < v.vec.len()
            invariant
                v.wf(),
                i <= v.vec@.len(),
                data@.len() == i,
                forall|k: int| 0 <= k < i ==> (#[trigger] data@[k])@ == seq![v.vec@[k]],
            decreases v.vec@.len() - i,
        {
            let mut row: Vec<u64> = Vec::new();
            row.push(v.vec[i]);
            data.push(row);
            i += 1;
        }
        let r = Matrix { rows: v.vec.len(), cols: 1, data };
        assert(r@ =~~= column_of(v@));
        r
    }

    /// The vector holding the entries of a single-column matrix.
    pub fn to_vector(&self) -> (r: Result<Vector, MatrixError>)
        requires
            self.wf(),
        ensures
            r.is_ok() <==> self.spec_cols() == 1,
            r.is_err() ==> r == Err::<Vector, MatrixError>(MatrixError::DimensionMismatch),
            r.is_ok() ==> r.unwrap().wf() && r.unwrap()@ == first_column(self@),
    {
        if self.cols != 1 {
            return Err(MatrixError::DimensionMismatch);
        }
        let mut vec: Vec<u64> = Vec::new();
        let mut i: usize = 0;
        while i < self.rows
            invariant
                self.wf(),
                self.cols == 1,
                i <= self.rows,
                vec@.len() == i,
                forall|k: int| 0 <= k < i ==> (#[trigger] vec@[k]) == self.data@[k]@[0],
            decreases self.rows - i,
        {
            vec.push(self.data[i][0]);
            i += 1;
        }
        let r = Vector { vec };
        assert(r@ =~= first_column(self@));
        Ok(r)
    }
}

} // verus!
