//! Algebraic laws of the matrix operations, proved over the model that the
//! operations' contracts speak of.
use vstd::prelude::*;
use vstd::arithmetic::mul::lemma_mul_is_associative;
use crate::field::{fadd, fmul, fsub, is_elem, MODULUS};
use crate::matrix::Matrix;
use crate::vector::{column_of, first_column, Vector};
use crate::model::{dot, identity, is_matrix, mat_add, mat_mul, mat_sub, mat_transpose};
use crate::sums::{
    lemma_dot_sum, lemma_sum_ext, lemma_sum_mod_left, lemma_sum_mod_right, lemma_sum_mul_left,
    lemma_sum_mul_right, lemma_sum_swap, sum,
};

verus! {

proof fn lemma_add_then_sub(x: int, y: int)
    requires
        is_elem(x),
        is_elem(y),
    ensures
        fsub(fadd(x, y), y) == x,
{
    let p = MODULUS as int;
    if x + y < p {
        assert((x + y) % p == x + y);
    } else {
        assert((x + y) % p == x + y - p);
    }
}

/// Adding a matrix and then subtracting it again gives back the original:
/// `(A + B) - B == A` for any two matrices of the same shape.
pub proof fn law_add_then_sub(a: &Matrix, b: &Matrix)
    requires
        a.wf(),
        b.wf(),
        a.same_shape(b),
    ensures
        mat_sub(mat_add(a@, b@), b@) == a@,
{
    a.lemma_view();
    b.lemma_view();
    assert forall|i: int, j: int| 0 <= i < a.spec_rows() && 0 <= j < a.spec_cols() implies
        #[trigger] mat_sub(mat_add(a@, b@), b@)[i][j] == a@[i][j] by {
        lemma_add_then_sub(a@[i][j], b@[i][j]);
    }
    assert(mat_sub(mat_add(a@, b@), b@) =~~= a@);
}

proof fn lemma_dot_identity_right(a: Seq<Seq<int>>, n: nat, i: int, j: int, k: nat)
    requires
        0 <= i < a.len(),
        a[i].len() == n,
        forall|c: int| 0 <= c < n ==> is_elem(#[trigger] a[i][c]),
        0 <= j < n,
        k <= n,
    ensures
        dot(a, identity(n), i, j, k) == if j < k { a[i][j] } else { 0 },
    decreases k,
{
    if k > 0 {
        lemma_dot_identity_right(a, n, i, j, (k - 1) as nat);
    }
}

proof fn lemma_dot_identity_left(a: Seq<Seq<int>>, m: nat, i: int, j: int, k: nat)
    requires
        a.len() == m,
        0 <= i < m,
        forall|r: int| 0 <= r < m ==> #[trigger] a[r].len() > j,
        forall|r: int| 0 <= r < m ==> is_elem(#[trigger] a[r][j]),
        0 <= j,
        k <= m,
    ensures
        dot(identity(m), a, i, j, k) == if i < k { a[i][j] } else { 0 },
    decreases k,
{
    if k > 0 {
        lemma_dot_identity_left(a, m, i, j, (k - 1) as nat);
    }
}

/// The identity is neutral for the product on both sides:
/// `A * I == A` and `I * A == A`.
pub proof fn law_identity(a: &Matrix)
    requires
        a.wf(),
    ensures
        mat_mul(a@, identity(a.spec_cols()), a.spec_cols()) == a@,
        mat_mul(identity(a.spec_rows()), a@, a.spec_cols()) == a@,
{
    a.lemma_view();
    let m = a.spec_rows();
    let n = a.spec_cols();
    assert forall|i: int, j: int| 0 <= i < m && 0 <= j < n implies #[trigger] mat_mul(a@, identity(n), n)[i][j]
        == a@[i][j] by {
        lemma_dot_identity_right(a@, n, i, j, n);
    }
    assert(mat_mul(a@, identity(n), n) =~~= a@);
    assert forall|i: int, j: int| 0 <= i < m && 0 <= j < n implies #[trigger] mat_mul(identity(m), a@, n)[i][j]
        == a@[i][j] by {
        lemma_dot_identity_left(a@, m, i, j, m);
    }
    assert(mat_mul(identity(m), a@, n) =~~= a@);
}

proof fn lemma_assoc_entry(a: Seq<Seq<int>>, b: Seq<Seq<int>>, c: Seq<Seq<int>>, n: nat, q: nat, pc: nat, i: int, j: int)
    requires
        b.len() == n,
        c.len() == q,
        0 <= i < a.len(),
        0 <= j < pc,
    ensures
        dot(a, mat_mul(b, c, pc), i, j, n) == dot(mat_mul(a, b, q), c, i, j, q),
{
    let p = MODULUS as int;
    let bc = mat_mul(b, c, pc);
    let ab = mat_mul(a, b, q);
    let s = |k: int| sum(|l: int| b[k][l] * c[l][j], q);
    let t = |l: int| sum(|k: int| a[i][k] * b[k][l], n);
    let ai = |k: int| a[i][k];
    let cj = |l: int| c[l][j];
    let h = |k: int, l: int| a[i][k] * (b[k][l] * c[l][j]);

    // The left side: sum over k of a[i][k] * (s(k) mod p), all mod p.
    lemma_dot_sum(a, bc, i, j, n);
    assert forall|k: int| 0 <= k < n implies #[trigger] bc[k][j] == s(k) % p by {
        lemma_dot_sum(b, c, k, j, q);
    }
    lemma_sum_ext(|k: int| a[i][k] * bc[k][j], |k: int| ai(k) * (s(k) % p), n);
    lemma_sum_mod_right(ai, s, n);
    assert forall|k: int| 0 <= k < n implies #[trigger] (ai(k) * s(k)) == sum(|l: int| h(k, l), q) by {
        let f = |l: int| b[k][l] * c[l][j];
        lemma_sum_mul_left(a[i][k], f, q);
        assert(s(k) == sum(f, q));
        lemma_sum_ext(|x: int| a[i][k] * f(x), |l: int| h(k, l), q);
    }
    lemma_sum_ext(|k: int| ai(k) * s(k), |k: int| sum(|l: int| h(k, l), q), n);

    // The right side: sum over l of (t(l) mod p) * c[l][j], all mod p.
    lemma_dot_sum(ab, c, i, j, q);
    assert forall|l: int| 0 <= l < q implies #[trigger] ab[i][l] == t(l) % p by {
        lemma_dot_sum(a, b, i, l, n);
    }
    lemma_sum_ext(|l: int| ab[i][l] * c[l][j], |l: int| (t(l) % p) * cj(l), q);
    lemma_sum_mod_left(t, cj, q);
    assert forall|l: int| 0 <= l < q implies #[trigger] (t(l) * cj(l)) == sum(|k: int| h(k, l), n) by {
        let f = |k: int| a[i][k] * b[k][l];
        lemma_sum_mul_right(f, c[l][j], n);
        assert(t(l) == sum(f, n));
        let g = |x: int| f(x) * c[l][j];
        assert forall|k: int| 0 <= k < n implies #[trigger] g(k) == h(k, l) by {
            lemma_mul_is_associative(a[i][k], b[k][l], c[l][j]);
        }
        lemma_sum_ext(g, |k: int| h(k, l), n);
    }
    lemma_sum_ext(|l: int| t(l) * cj(l), |l: int| sum(|k: int| h(k, l), n), q);

    lemma_sum_swap(h, n, q);
}

/// The matrix product is associative: `A * (B * C) == (A * B) * C` whenever
/// the shapes fit.
pub proof fn law_mul_assoc(a: &Matrix, b: &Matrix, c: &Matrix)
    requires
        a.wf(),
        b.wf(),
        c.wf(),
        a.spec_cols() == b.spec_rows(),
        b.spec_cols() == c.spec_rows(),
    ensures
        mat_mul(a@, mat_mul(b@, c@, c.spec_cols()), c.spec_cols()) == mat_mul(
            mat_mul(a@, b@, b.spec_cols()),
            c@,
            c.spec_cols(),
        ),
{
    a.lemma_view();
    b.lemma_view();
    c.lemma_view();
    let pc = c.spec_cols();
    let q = b.spec_cols();
    let n = a.spec_cols();
    let lhs = mat_mul(a@, mat_mul(b@, c@, pc), pc);
    let rhs = mat_mul(mat_mul(a@, b@, q), c@, pc);
    assert forall|i: int, j: int| 0 <= i < a.spec_rows() && 0 <= j < pc implies #[trigger] lhs[i][j] == rhs[i][j] by {
        lemma_assoc_entry(a@, b@, c@, n, q, pc, i, j);
    }
    assert(lhs =~~= rhs);
}

/// Transposing twice gives back the original matrix.
pub proof fn law_transpose_twice(a: &Matrix)
    requires
        a.wf(),
    ensures
        mat_transpose(mat_transpose(a@, a.spec_cols()), a.spec_rows()) == a@,
{
    a.lemma_view();
    assert(mat_transpose(mat_transpose(a@, a.spec_cols()), a.spec_rows()) =~~= a@);
}

/// A vector turned into a single-column matrix and back is unchanged, and
/// a single-column matrix turned into a vector and back is unchanged.
pub proof fn law_column_round_trip(v: &Vector, m: &Matrix)
    requires
        v.wf(),
        m.wf(),
        m.spec_cols() == 1,
    ensures
        first_column(column_of(v@)) == v@,
        column_of(first_column(m@)) == m@,
{
    m.lemma_view();
    assert(first_column(column_of(v@)) =~= v@);
    assert(column_of(first_column(m@)) =~~= m@);
}

} // verus!
