//! Finite sums over integers and the facts about them that the laws of
//! matrix arithmetic rest on.
use vstd::prelude::*;
use vstd::arithmetic::div_mod::{lemma_add_mod_noop, lemma_mul_mod_noop_left, lemma_mul_mod_noop_right};
use vstd::arithmetic::mul::{lemma_mul_is_distributive_add, lemma_mul_is_distributive_add_other_way};
use crate::field::{fadd, fmul, MODULUS};
use crate::model::dot;

verus! {

/// `f(0) + ... + f(k - 1)`.
pub open spec fn sum(f: spec_fn(int) -> int, k: nat) -> int
    decreases k,
{
    if k == 0 {
        0
    } else {
        sum(f, (k - 1) as nat) + f(k - 1)
    }
}

pub proof fn lemma_sum_ext(f: spec_fn(int) -> int, g: spec_fn(int) -> int, k: nat)
    requires
        forall|x: int| 0 <= x < k ==> #[trigger] f(x) == g(x),
    ensures
        sum(f, k) == sum(g, k),
    decreases k,
{
    if k > 0 {
        lemma_sum_ext(f, g, (k - 1) as nat);
    }
}

pub proof fn lemma_sum_zero(f: spec_fn(int) -> int, k: nat)
    requires
        forall|x: int| 0 <= x < k ==> #[trigger] f(x) == 0,
    ensures
        sum(f, k) == 0,
    decreases k,
{
    if k > 0 {
        lemma_sum_zero(f, (k - 1) as nat);
    }
}

pub proof fn lemma_sum_add(f: spec_fn(int) -> int, g: spec_fn(int) -> int, k: nat)
    ensures
        sum(f, k) + sum(g, k) == sum(|x: int| f(x) + g(x), k),
    decreases k,
{
    if k > 0 {
        lemma_sum_add(f, g, (k - 1) as nat);
    }
}

/// `c * (f(0) + ... ) == c * f(0) + ...`
pub proof fn lemma_sum_mul_left(c: int, f: spec_fn(int) -> int, k: nat)
    ensures
        c * sum(f, k) == sum(|x: int| c * f(x), k),
    decreases k,
{
    if k > 0 {
        lemma_sum_mul_left(c, f, (k - 1) as nat);
        lemma_mul_is_distributive_add(c, sum(f, (k - 1) as nat), f(k - 1));
    }
}

/// `(f(0) + ... ) * c == f(0) * c + ...`
pub proof fn lemma_sum_mul_right(f: spec_fn(int) -> int, c: int, k: nat)
    ensures
        sum(f, k) * c == sum(|x: int| f(x) * c, k),
    decreases k,
{
    if k > 0 {
        lemma_sum_mul_right(f, c, (k - 1) as nat);
        lemma_mul_is_distributive_add_other_way(c, sum(f, (k - 1) as nat), f(k - 1));
    }
}

/// The order of a double sum can be exchanged.
pub proof fn lemma_sum_swap(h: spec_fn(int, int) -> int, n: nat, m: nat)
    ensures
        sum(|x: int| sum(|y: int| h(x, y), m), n) == sum(|y: int| sum(|x: int| h(x, y), n), m),
    decreases n,
{
    if n > 0 {
        let n1 = (n - 1) as nat;
        lemma_sum_swap(h, n1, m);
        let f = |y: int| sum(|x: int| h(x, y), n1);
        let g = |y: int| h(n1 as int, y);
        lemma_sum_add(f, g, m);
        let fg = |y: int| f(y) + g(y);
        let full = |y: int| sum(|x: int| h(x, y), n);
        assert forall|y: int| 0 <= y < m implies #[trigger] fg(y) == full(y) by {
            assert(sum(|x: int| h(x, y), n) == sum(|x: int| h(x, y), n1) + h(n1 as int, y));
        }
        lemma_sum_ext(fg, full, m);
        assert(sum(f, m) + sum(g, m) == sum(fg, m));
        let outer = |x: int| sum(|y: int| h(x, y), m);
        assert(sum(outer, n) == sum(outer, n1) + outer(n1 as int));
        assert(outer(n1 as int) == sum(g, m));
        assert(sum(outer, n1) == sum(f, m));
    } else {
        lemma_sum_zero(|y: int| sum(|x: int| h(x, y), n), m);
    }
}

/// Reducing each factor on the right modulo the field's characteristic
/// leaves the sum's residue unchanged.
pub proof fn lemma_sum_mod_right(g: spec_fn(int) -> int, f: spec_fn(int) -> int, k: nat)
    ensures
        sum(|x: int| g(x) * (f(x) % (MODULUS as int)), k) % (MODULUS as int) == sum(|x: int| g(x) * f(x), k) % (MODULUS as int),
    decreases k,
{
    let p = MODULUS as int;
    if k > 0 {
        let k1 = (k - 1) as nat;
        lemma_sum_mod_right(g, f, k1);
        let s1 = sum(|x: int| g(x) * (f(x) % p), k1);
        let s2 = sum(|x: int| g(x) * f(x), k1);
        let t1 = g(k1 as int) * (f(k1 as int) % p);
        let t2 = g(k1 as int) * f(k1 as int);
        lemma_mul_mod_noop_right(g(k1 as int), f(k1 as int), p);
        lemma_add_mod_noop(s1, t1, p);
        lemma_add_mod_noop(s2, t2, p);
    }
}

/// The same, for the factor on the left.
pub proof fn lemma_sum_mod_left(f: spec_fn(int) -> int, g: spec_fn(int) -> int, k: nat)
    ensures
        sum(|x: int| (f(x) % (MODULUS as int)) * g(x), k) % (MODULUS as int) == sum(|x: int| f(x) * g(x), k) % (MODULUS as int),
    decreases k,
{
    let p = MODULUS as int;
    if k > 0 {
        let k1 = (k - 1) as nat;
        lemma_sum_mod_left(f, g, k1);
        let s1 = sum(|x: int| (f(x) % p) * g(x), k1);
        let s2 = sum(|x: int| f(x) * g(x), k1);
        let t1 = (f(k1 as int) % p) * g(k1 as int);
        let t2 = f(k1 as int) * g(k1 as int);
        lemma_mul_mod_noop_left(f(k1 as int), g(k1 as int), p);
        lemma_add_mod_noop(s1, t1, p);
        lemma_add_mod_noop(s2, t2, p);
    }
}

/// An entry of a product is the residue of the plain sum of products.
pub proof fn lemma_dot_sum(a: Seq<Seq<int>>, b: Seq<Seq<int>>, i: int, j: int, k: nat)
    ensures
        dot(a, b, i, j, k) == sum(|x: int| a[i][x] * b[x][j], k) % (MODULUS as int),
    decreases k,
{
    let p = MODULUS as int;
    if k > 0 {
        let k1 = (k - 1) as nat;
        lemma_dot_sum(a, b, i, j, k1);
        let s = sum(|x: int| a[i][x] * b[x][j], k1);
        let t = a[i][k1 as int] * b[k1 as int][j];
        lemma_add_mod_noop(s, t, p);
        assert((s % p) % p == s % p) by {
            vstd::arithmetic::div_mod::lemma_mod_twice(s, p);
        }
        assert((t % p) % p == t % p) by {
            vstd::arithmetic::div_mod::lemma_mod_twice(t, p);
        }
        assert(fadd(dot(a, b, i, j, k1), fmul(a[i][k1 as int], b[k1 as int][j])) == ((s % p) + (t % p)) % p);
    }
}

} // verus!
