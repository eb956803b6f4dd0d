use vstd::arithmetic::div_mod::lemma_fundamental_div_mod_converse;
use vstd::prelude::*;

use crate::shape::ShapeError;
use crate::DIM;

verus! {

/// The row-major flat buffer of a sequence of embeddings: component `k` is
/// component `k % DIM` of row `k / DIM`.
pub open spec fn flat_of<T>(rows: Seq<[T; DIM]>) -> Seq<T> {
    Seq::new(rows.len() * DIM as nat, |k: int| rows[k / DIM as int]@[k % DIM as int])
}

/// Component `col` of row `row` stands at `row * DIM + col` of the flat buffer.
pub proof fn lemma_flat_index<T>(rows: Seq<[T; DIM]>, row: int, col: int)
    requires
        0 <= row < rows.len(),
        0 <= col < DIM,
    ensures
        0 <= row * DIM + col < flat_of(rows).len(),
        flat_of(rows)[row * DIM + col] == rows[row]@[col],
{
    lemma_fundamental_div_mod_converse(row * DIM + col, DIM as int, row, col);
    assert(row * DIM + col < rows.len() * DIM) by (nonlinear_arith)
        requires
            0 <= row < rows.len(),
            0 <= col < DIM,
    ;
}

/// Copies the candidates into one row-major buffer of `rows.len() * DIM`
/// components, ready to be read as an `rows.len() x DIM` matrix.
pub fn flatten<T: Copy>(rows: &[[T; DIM]]) -> (r: Vec<T>)
    requires
        rows@.len() * DIM <= usize::MAX,
    ensures
        r@ == flat_of(rows@),
{
    let mut r: Vec<T> = Vec::new();
    let mut i: usize = 0;
    while i < rows.len()
        invariant
            i <= rows@.len(),
            rows@.len() * DIM <= usize::MAX,
            r@ == flat_of(rows@.take(i as int)),
        decreases rows@.len() - i,
    {
        let row: &[T; DIM] = &rows[i];
        let mut j: usize = 0;
        while j < DIM
            invariant
                i < rows@.len(),
                j <= DIM,
                *row == rows@[i as int],
                r@.len() == i * DIM + j,
                forall|k: int| 0 <= k < i * DIM ==> r@[k] == flat_of(rows@.take(i as int))[k],
                forall|c: int| 0 <= c < j ==> r@[i * DIM + c] == row@[c],
            decreases DIM - j,
        {
            r.push(row[j]);
            j = j + 1;
        }
        proof {
            let next = rows@.take(i + 1);
            assert(flat_of(rows@.take(i as int)).len() == i * DIM);
            assert forall|k: int| 0 <= k < (i + 1) * DIM implies r@[k] == flat_of(next)[k] by {
                let q = k / DIM as int;
                let c = k % DIM as int;
                lemma_fundamental_div_mod_converse(k, DIM as int, q, c);
                if k < i * DIM {
                    assert(q < i) by (nonlinear_arith)
                        requires k == q * DIM + c, 0 <= c < DIM, k < i * DIM;
                    lemma_flat_index(rows@.take(i as int), q, c);
                    lemma_flat_index(next, q, c);
                } else {
                    assert(q == i) by (nonlinear_arith)
                        requires k == q * DIM + c, 0 <= c < DIM, i * DIM <= k < (i + 1) * DIM;
                    lemma_flat_index(next, q, c);
                }
            }
            assert(r@ =~= flat_of(next));
        }
        i = i + 1;
    }
    assert(rows@.take(rows@.len() as int) =~= rows@);
    r
}

/// Reads a buffer as one embedding, failing with `DimensionMismatch` unless it
/// holds exactly `DIM` components.
pub fn embedding_from_slice<T: Copy>(values: &[T]) -> (r: Result<[T; DIM], ShapeError>)
    ensures
        values@.len() == DIM ==> (r matches Ok(e) && e@ == values@),
        values@.len() != DIM ==> r == Err::<[T; DIM], ShapeError>(
            ShapeError::DimensionMismatch { expected: DIM, found: values@.len() as usize },
        ),
{
    if values.len() != DIM {
        return Err(ShapeError::DimensionMismatch { expected: DIM, found: values.len() });
    }
    let mut e: [T; DIM] = [values[0]; DIM];
    let mut i: usize = 0;
    while i < DIM
        invariant
            values@.len() == DIM,
            i <= DIM,
            forall|k: int| 0 <= k < i ==> e@[k] == values@[k],
        decreases DIM - i,
    {
        e[i] = values[i];
        i = i + 1;
    }
    assert(e@ =~= values@);
    Ok(e)
}

/// The candidates `rows` reordered by `perm`: entry `k` is `rows[perm[k]]`.
pub open spec fn permuted<T>(rows: Seq<[T; DIM]>, perm: Seq<int>) -> Seq<[T; DIM]> {
    Seq::new(perm.len(), |k: int| rows[perm[k]])
}

/// `perm` is a permutation of the indices `0 .. n`.
pub open spec fn is_permutation(perm: Seq<int>, n: nat) -> bool {
    &&& perm.len() == n
    &&& forall|k: int| 0 <= k < n ==> 0 <= #[trigger] perm[k] < n
    &&& forall|a: int, b: int| 0 <= a < n && 0 <= b < n && a != b ==> perm[a] != perm[b]
}

/// Permuting the candidates permutes the rows of their flat buffer in the same
/// way: row `k` of the buffer of the reordered candidates is row `perm[k]` of
/// the buffer of the originals, so the layout never reorders candidates.
pub proof fn lemma_flat_of_permuted<T>(rows: Seq<[T; DIM]>, perm: Seq<int>)
    requires
        is_permutation(perm, rows.len()),
    ensures
        flat_of(permuted(rows, perm)).len() == flat_of(rows).len(),
        forall|k: int, c: int|
            0 <= k < rows.len() && 0 <= c < DIM ==> #[trigger] flat_of(permuted(rows, perm))[k * DIM
                + c] == flat_of(rows)[perm[k] * DIM + c],
{
    assert forall|k: int, c: int| 0 <= k < rows.len() && 0 <= c < DIM implies #[trigger] flat_of(
        permuted(rows, perm),
    )[k * DIM + c] == flat_of(rows)[perm[k] * DIM + c] by {
        lemma_flat_index(permuted(rows, perm), k, c);
        lemma_flat_index(rows, perm[k], c);
    }
}

/// An empty candidate collection has an empty flat buffer.
pub proof fn lemma_flat_of_empty<T>()
    ensures
        flat_of(Seq::<[T; DIM]>::empty()) == Seq::<T>::empty(),
{
    assert(flat_of(Seq::<[T; DIM]>::empty()) =~= Seq::<T>::empty());
}

} // verus!
