//! The mathematical model of matrices: sequences of rows of field elements,
//! and what each operation computes on them.
use vstd::prelude::*;
use crate::field::{fadd, fmul, fsub, is_elem};

verus! {

/// `rows` rows of `cols` canonical residues each.
pub open spec fn is_matrix(m: Seq<Seq<int>>, rows: nat, cols: nat) -> bool {
    &&& m.len() == rows
    &&& forall|i: int| 0 <= i < rows ==> (#[trigger] m[i]).len() == cols
    &&& forall|i: int, j: int| 0 <= i < rows && 0 <= j < cols ==> is_elem(#[trigger] m[i][j])
}

/// Every row has the length of the first.
pub open spec fn is_rectangular<T>(m: Seq<Seq<T>>) -> bool {
    forall|i: int| 0 <= i < m.len() ==> (#[trigger] m[i]).len() == m[0].len()
}

pub open spec fn identity(n: nat) -> Seq<Seq<int>> {
    Seq::new(n, |i: int| Seq::new(n, |j: int| if i == j { 1int } else { 0int }))
}

pub open spec fn mat_add(a: Seq<Seq<int>>, b: Seq<Seq<int>>) -> Seq<Seq<int>> {
    Seq::new(a.len(), |i: int| Seq::new(a[i].len(), |j: int| fadd(a[i][j], b[i][j])))
}

pub open spec fn mat_sub(a: Seq<Seq<int>>, b: Seq<Seq<int>>) -> Seq<Seq<int>> {
    Seq::new(a.len(), |i: int| Seq::new(a[i].len(), |j: int| fsub(a[i][j], b[i][j])))
}

/// The entry-by-entry product.
pub open spec fn mat_hadamard(a: Seq<Seq<int>>, b: Seq<Seq<int>>) -> Seq<Seq<int>> {
    Seq::new(a.len(), |i: int| Seq::new(a[i].len(), |j: int| fmul(a[i][j], b[i][j])))
}

pub open spec fn mat_scale(a: Seq<Seq<int>>, k: int) -> Seq<Seq<int>> {
    Seq::new(a.len(), |i: int| Seq::new(a[i].len(), |j: int| fmul(a[i][j], k)))
}

/// The sum of the first `k` products `a[i][n] * b[n][j]`, accumulated from
/// left to right.
pub open spec fn dot(a: Seq<Seq<int>>, b: Seq<Seq<int>>, i: int, j: int, k: nat) -> int
    decreases k,
{
    if k == 0 {
        0
    } else {
        fadd(dot(a, b, i, j, (k - 1) as nat), fmul(a[i][k - 1], b[k - 1][j]))
    }
}

/// The product of `a` (with `b.len()` columns) and `b` (with `p` columns).
pub open spec fn mat_mul(a: Seq<Seq<int>>, b: Seq<Seq<int>>, p: nat) -> Seq<Seq<int>> {
    Seq::new(a.len(), |i: int| Seq::new(p, |j: int| dot(a, b, i, j, b.len())))
}

/// The transpose of `a`, which has `cols` columns.
pub open spec fn mat_transpose(a: Seq<Seq<int>>, cols: nat) -> Seq<Seq<int>> {
    Seq::new(cols, |j: int| Seq::new(a.len(), |i: int| a[i][j]))
}

/// Each row of `a` followed by the same row of `b`.
pub open spec fn augment(a: Seq<Seq<int>>, b: Seq<Seq<int>>) -> Seq<Seq<int>> {
    Seq::new(a.len(), |i: int| a[i] + b[i])
}

/// The index in the full range that index `i` of a range with `k` removed
/// stands for.
pub open spec fn skip(i: int, k: int) -> int {
    if i < k {
        i
    } else {
        i + 1
    }
}

/// `a` without row `r` and column `c`.
pub open spec fn minor(a: Seq<Seq<int>>, r: int, c: int) -> Seq<Seq<int>> {
    Seq::new((a.len() - 1) as nat, |i: int| Seq::new((a[skip(i, r)].len() - 1) as nat, |j: int| a[skip(i, r)][skip(j, c)]))
}

} // verus!
