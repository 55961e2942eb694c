//! Batch evaluation: one query against a flat row-major buffer of candidates.
//!
//! The buffer holds its rows back to back, each `dim` entries long. The
//! evaluator applies a pairwise kernel to the query and every row in turn and
//! collects the results in row order, so index `i` of the output always
//! belongs to row `i` of the batch; an empty batch yields an empty result.

use vstd::prelude::*;
use vstd::arithmetic::div_mod::lemma_fundamental_div_mod;
use vstd::arithmetic::mul::lemma_mul_inequality;
use vstd::arithmetic::mul::lemma_mul_is_commutative;
use vstd::slice::slice_subrange;

verus! {

/// Row `i` of a flat row-major buffer whose rows are `dim` entries long.
pub open spec fn row<T>(batch: Seq<T>, dim: int, i: int) -> Seq<T> {
    batch.subrange(i * dim, i * dim + dim)
}

/// Holds when `v` is an output the pairwise kernel `f` admits for the query
/// and row `i` of the batch.
pub open spec fn is_row_result<T, R, F: Fn(&[T], &[T]) -> R>(
    f: F,
    query: &[T],
    batch: Seq<T>,
    dim: int,
    i: int,
    v: R,
) -> bool {
    exists|c: &[T]| c@ == row(batch, dim, i) && call_ensures(f, (query, c), v)
}

/// Applies the pairwise kernel `f` to `query` and each row of `batch` in row
/// order. The output has one entry per row, and entry `i` is an output of
/// `f` on the query and row `i`, so positional correspondence with the batch
/// is kept and a batch of no rows yields an empty result without error.
pub fn map_batch<T, R, F: Fn(&[T], &[T]) -> R>(f: F, query: &[T], batch: &[T], dim: usize) -> (r:
    Vec<R>)
    requires
        dim > 0,
        batch@.len() as int % dim as int == 0,
        forall|c: &[T]| c@.len() == dim ==> call_requires(f, (query, c)),
    ensures
        r@.len() == batch@.len() as int / dim as int,
        forall|i: int|
            0 <= i < r@.len() ==> is_row_result(f, query, batch@, dim as int, i, #[trigger] r@[i]),
{
    let n = batch.len() / dim;
    proof {
        lemma_fundamental_div_mod(batch@.len() as int, dim as int);
        lemma_mul_is_commutative(dim as int, n as int);
        assert(n * dim == batch@.len());
    }
    let mut result: Vec<R> = Vec::new();
    let mut i: usize = 0;
    while i < n
        invariant
            i <= n,
            dim > 0,
            n * dim == batch@.len(),
            batch@.len() <= usize::MAX,
            forall|c: &[T]| c@.len() == dim ==> call_requires(f, (query, c)),
            result@.len() == i,
            forall|j: int|
                0 <= j < i ==> is_row_result(f, query, batch@, dim as int, j, #[trigger] result@[j]),
        decreases n - i,
    {
        proof {
            lemma_mul_inequality(i as int, n as int, dim as int);
            lemma_mul_inequality(i as int + 1, n as int, dim as int);
            assert((i as int + 1) * dim == i as int * dim + dim) by (nonlinear_arith);
        }
        let start = i * dim;
        let end = start + dim;
        let c = slice_subrange(batch, start, end);
        let v = f(query, c);
        let ghost prev = result@;
        result.push(v);
        proof {
            assert forall|j: int| 0 <= j <= i implies is_row_result(
                f,
                query,
                batch@,
                dim as int,
                j,
                #[trigger] result@[j],
            ) by {
                if j == i {
                    assert(c@ == row(batch@, dim as int, j));
                    assert(result@[j] == v);
                    assert(c@ == row(batch@, dim as int, j) && call_ensures(f, (query, c), result@[j]));
                } else {
                    let c2 = choose|c2: &[T]|
                        c2@ == row(batch@, dim as int, j) && call_ensures(f, (query, c2), prev[j]);
                    assert(result@[j] == prev[j]);
                    assert(c2@ == row(batch@, dim as int, j) && call_ensures(f, (query, c2), result@[j]));
                }
            }
        }
        i += 1;
    }
    result
}

} // verus!
