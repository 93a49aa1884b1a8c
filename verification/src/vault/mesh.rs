//! Merging the models of a parsed mesh file into one index list.

use vstd::prelude::*;

verus! {

/// `model`'s indices, each offset by `base`.
pub open spec fn rebased(model: Seq<u32>, base: nat) -> Seq<u32> {
    Seq::new(model.len(), |j: int| (model[j] + base) as u32)
}

/// Appends the indices of one model of a mesh file to the merged index list. The
/// model's vertices are appended after the `base` vertices already merged, so each
/// of its indices is offset by `base`.
pub fn append_model_indices(indices: &mut Vec<u32>, model: &[u32], base: u32)
    requires
        forall|j: int| 0 <= j < model@.len() ==> model@[j] + base <= u32::MAX,
    ensures
        final(indices)@ == old(indices)@ + rebased(model@, base as nat),
{
    let ghost start = indices@;
    let n = model.len();
    let mut i: usize = 0;
    while i < n
        invariant
            n == model@.len(),
            i <= n,
            forall|j: int| 0 <= j < model@.len() ==> model@[j] + base <= u32::MAX,
            indices@ == start + rebased(model@, base as nat).take(i as int),
        decreases n - i,
    {
        indices.push(model[i] + base);
        i = i + 1;
        assert(indices@ =~= start + rebased(model@, base as nat).take(i as int));
    }
    assert(rebased(model@, base as nat).take(n as int) =~= rebased(model@, base as nat));
}

} // verus!
