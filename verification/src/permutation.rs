//! The round schedule of one permutation, over field values.

use crate::linear::{apply_dense, apply_sparse};
use crate::params::{ParameterSetView, SparseMatrixView};
use crate::state::{pre_round_spec, sbox_full_spec, sbox_part_spec};
use vstd::prelude::*;

verus! {

/// A vector of `n` zeros.
pub open spec fn zeros(n: nat) -> Seq<nat> {
    Seq::new(n, |i: int| 0nat)
}

/// `n` full rounds, round `k` with the constants `constants[k]`: the full
/// S-box layer, then the dense matrix `mds`.
pub open spec fn full_rounds(
    s: Seq<nat>,
    constants: Seq<Seq<nat>>,
    mds: Seq<Seq<nat>>,
    n: nat,
) -> Seq<nat>
    decreases n,
{
    if n == 0 {
        s
    } else {
        let before = full_rounds(s, constants, mds, (n - 1) as nat);
        apply_dense(mds, sbox_full_spec(before, constants[n - 1]))
    }
}

/// `n` partial rounds, round `k` with the constant `constants[k]` and the
/// matrix `sparse[k]`: the S-box on word 0, then the sparse matrix.
pub open spec fn partial_rounds(
    s: Seq<nat>,
    constants: Seq<nat>,
    sparse: Seq<SparseMatrixView>,
    n: nat,
) -> Seq<nat>
    decreases n,
{
    if n == 0 {
        s
    } else {
        let before = partial_rounds(s, constants, sparse, (n - 1) as nat);
        apply_sparse(
            sparse[n - 1].row,
            sparse[n - 1].col_hat,
            sbox_part_spec(before, constants[n - 1]),
        )
    }
}

/// One permutation of the state `s` that absorbs `inputs`.
///
/// In order: the absorbing round with the first vector of `start`; a full
/// round for each of the vectors 1 to `r_f / 2 - 1` of `start`; the full
/// S-box layer with the last vector of `start`, followed by
/// `pre_sparse_mds`; the partial rounds; a full round for each vector of
/// `end`; and one more full round whose constants are all zero.
pub open spec fn permute(p: ParameterSetView, s: Seq<nat>, inputs: Seq<nat>) -> Seq<nat> {
    let absorbed = pre_round_spec(s, inputs, p.start[0]);
    let first_half = full_rounds(absorbed, p.start.skip(1), p.mds, (p.r_f / 2 - 1) as nat);
    let turned = apply_dense(p.pre_sparse_mds, sbox_full_spec(first_half, p.start.last()));
    let middle = partial_rounds(turned, p.partial, p.sparse_matrices, p.r_p);
    let second_half = full_rounds(middle, p.end, p.mds, p.end.len());
    apply_dense(p.mds, sbox_full_spec(second_half, zeros(s.len())))
}

} // verus!
