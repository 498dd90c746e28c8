//! The linear layer over sequences of field values.
//!
//! A state is a sequence of naturals, a dense matrix a sequence of rows, and
//! a sparse matrix a first row together with the rest of its first column:
//! below the first row it is the identity but for that column.

use crate::field::{fadd, fmul, modulus};
use vstd::arithmetic::div_mod::{lemma_add_mod_noop, lemma_add_mod_noop_right};
use vstd::prelude::*;

verus! {

/// The sum of the first `n` products `a[k] * b[k]`, over the integers.
pub open spec fn sum_products(a: Seq<nat>, b: Seq<nat>, n: nat) -> nat
    decreases n,
{
    if n == 0 {
        0
    } else {
        sum_products(a, b, (n - 1) as nat) + a[n - 1] * b[n - 1]
    }
}

/// The dot product of two vectors in the field.
pub open spec fn dot(a: Seq<nat>, b: Seq<nat>) -> nat {
    sum_products(a, b, b.len()) % modulus()
}

/// The product of a dense matrix and a state: word `i` of the result is
/// the dot product of row `i` with the state.
pub open spec fn apply_dense(m: Seq<Seq<nat>>, s: Seq<nat>) -> Seq<nat> {
    Seq::new(s.len(), |i: int| dot(m[i], s))
}

/// The product of a sparse matrix and a state: word 0 is the dot product
/// of `row` with the state, and word `i` is `col_hat[i - 1] * s[0] + s[i]`.
pub open spec fn apply_sparse(row: Seq<nat>, col_hat: Seq<nat>, s: Seq<nat>) -> Seq<nat> {
    Seq::new(
        s.len(),
        |i: int|
            if i == 0 {
                dot(row, s)
            } else {
                fadd(fmul(col_hat[i - 1], s[0]), s[i])
            },
    )
}

/// Row `i >= 1` of the dense form of a sparse matrix of width `width`:
/// `c` in column 0, one on the diagonal, zero elsewhere.
pub open spec fn pivot_row(c: nat, i: int, width: nat) -> Seq<nat> {
    Seq::new(
        width,
        |j: int|
            if j == 0 {
                c
            } else if j == i {
                1nat
            } else {
                0nat
            },
    )
}

/// The dense matrix that a sparse matrix stands for.
pub open spec fn dense_equivalent(row: Seq<nat>, col_hat: Seq<nat>) -> Seq<Seq<nat>> {
    Seq::new(
        row.len(),
        |i: int|
            if i == 0 {
                row
            } else {
                pivot_row(col_hat[i - 1], i, row.len())
            },
    )
}

/// One more term of a dot product: adding `b[n] * a[n]` in the field to the
/// reduced sum of `n` products gives the reduced sum of `n + 1` products.
pub proof fn lemma_dot_step(a: Seq<nat>, b: Seq<nat>, n: nat, acc: nat)
    requires
        acc == sum_products(a, b, n) % modulus(),
    ensures
        fadd(acc, fmul(b[n as int], a[n as int])) == sum_products(a, b, n + 1) % modulus(),
{
    let p = modulus() as int;
    let s = sum_products(a, b, n) as int;
    let t = (b[n as int] * a[n as int]) as int;
    assert(b[n as int] * a[n as int] == a[n as int] * b[n as int]) by (nonlinear_arith);
    lemma_add_mod_noop(s, t, p);
}

/// The products of a pivot row with a state sum to `c * s[0] + s[i]`.
proof fn lemma_pivot_row_sum(c: nat, i: int, s: Seq<nat>, n: nat)
    requires
        1 <= i < s.len(),
        n <= s.len(),
    ensures
        sum_products(pivot_row(c, i, s.len()), s, n) == (if n >= 1 {
            c * s[0]
        } else {
            0
        }) + (if n > i {
            s[i]
        } else {
            0nat
        }),
    decreases n,
{
    if n > 0 {
        lemma_pivot_row_sum(c, i, s, (n - 1) as nat);
        let row = pivot_row(c, i, s.len());
        let k = n - 1;
        if k == 0 {
        } else if k == i {
            assert(row[k] * s[k] == s[k]) by (nonlinear_arith)
                requires
                    row[k] == 1,
            ;
        } else {
            assert(row[k] * s[k] == 0) by (nonlinear_arith)
                requires
                    row[k] == 0,
            ;
        }
    }
}

/// A sparse matrix acts on every state as its dense form does.
pub proof fn lemma_sparse_matches_dense(row: Seq<nat>, col_hat: Seq<nat>, s: Seq<nat>)
    requires
        row.len() == s.len(),
        col_hat.len() + 1 == s.len(),
    ensures
        apply_sparse(row, col_hat, s) == apply_dense(dense_equivalent(row, col_hat), s),
{
    let sparse = apply_sparse(row, col_hat, s);
    let dense = apply_dense(dense_equivalent(row, col_hat), s);
    assert forall|i: int| 0 <= i < s.len() implies sparse[i] == dense[i] by {
        if i > 0 {
            let c = col_hat[i - 1];
            lemma_pivot_row_sum(c, i, s, s.len());
            lemma_add_mod_noop((c * s[0]) as int, s[i] as int, modulus() as int);
            lemma_add_mod_noop_right(((c * s[0]) % modulus()) as int, s[i] as int, modulus() as int);
        }
    }
    assert(sparse =~= dense);
}

} // verus!
