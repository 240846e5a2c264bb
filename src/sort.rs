//! Stable sorting of rows through the `permutation` crate.
use vstd::prelude::*;
use crate::table::Row;

verus! {

#[verifier::external_type_specification]
#[verifier::external_body]
pub struct ExPermutation(permutation::Permutation);

/// The indices of a permutation in one-line form: position `k` of the
/// permuted sequence takes the element at index `perm_indices(p)[k]`.
pub uninterp spec fn perm_indices(p: permutation::Permutation) -> Seq<usize>;

/// `p` lists each index below `keys.len()` once, ordered by key, and by index
/// among equal keys.
pub open spec fn is_stable_sort(keys: Seq<usize>, p: Seq<usize>) -> bool {
    &&& p.len() == keys.len()
    &&& forall|k: int| 0 <= k < p.len() ==> #[trigger] p[k] < keys.len()
    &&& forall|k: int, l: int| 0 <= k < l < p.len() ==> #[trigger] p[k] != #[trigger] p[l]
    &&& forall|k: int, l: int|
        0 <= k < l < p.len() ==> keys[#[trigger] p[k] as int] < keys[#[trigger] p[l] as int] || (
        keys[p[k] as int] == keys[p[l] as int] && p[k] < p[l])
}

/// Relies on permutation::sort: the permutation that sorts `keys`, found by a
/// stable sort of the indices by key.
#[verifier::external_body]
pub(crate) fn sort_permutation(keys: &Vec<usize>) -> (p: permutation::Permutation)
    ensures
        is_stable_sort(keys@, perm_indices(p)),
{
    permutation::sort(keys)
}

/// Relies on permutation::Permutation::apply_slice_in_place: moves the rows
/// into the order of the permutation, which it leaves unchanged.
#[verifier::external_body]
pub(crate) fn apply_permutation(p: &mut permutation::Permutation, rows: &mut Vec<Row>)
    requires
        perm_indices(*old(p)).len() == old(rows)@.len(),
        old(rows)@.len() <= isize::MAX,
        forall|k: int|
            0 <= k < perm_indices(*old(p)).len() ==> #[trigger] perm_indices(*old(p))[k] < old(
                rows,
            )@.len(),
        forall|k: int, l: int|
            0 <= k < l < perm_indices(*old(p)).len() ==> #[trigger] perm_indices(*old(p))[k]
                != #[trigger] perm_indices(*old(p))[l],
    ensures
        perm_indices(*final(p)) == perm_indices(*old(p)),
        final(rows)@.len() == old(rows)@.len(),
        forall|k: int|
            0 <= k < final(rows)@.len() ==> #[trigger] final(rows)@[k] == old(rows)@[perm_indices(
                *old(p),
            )[k] as int],
{
    p.apply_slice_in_place(rows)
}

} // verus!
