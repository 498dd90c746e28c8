//! The parameters of a permutation.
//!
//! A [`ParameterSet`] is plain data: round counts, round constants and the
//! matrices of the linear layer. Nothing here derives them; they come from
//! whoever generated them for the field and the security level wanted.

use crate::field::{matrix_values, values, FieldElement};
use crate::linear::{dense_equivalent, pivot_row};
use vstd::prelude::*;

verus! {

/// Why a hasher could not be built, or a permutation not be run.
#[derive(Clone, Copy, Debug, PartialEq, Eq)]
pub enum PoseidonError {
    /// The rate is zero, or the width is not the rate plus one.
    DimensionError,
    /// More inputs than the rate were handed to one permutation.
    OverCapacityInput,
    /// The lengths of the constant and matrix sequences do not fit the
    /// round counts.
    MalformedParameterSet,
}

/// The width `t` and the rate `rate` fit: the rate is positive and one word
/// of the state is capacity.
pub open spec fn dimensions_fit(t: nat, rate: nat) -> bool {
    rate >= 1 && t == rate + 1
}

/// A sparse matrix of the partial rounds: its first row, and its first
/// column below that row.
#[derive(Clone, Copy, Debug, PartialEq, Eq)]
pub struct SparseMatrix<const T: usize, const RATE: usize> {
    pub row: [FieldElement; T],
    pub col_hat: [FieldElement; RATE],
}

/// The values of a [`SparseMatrix`].
pub struct SparseMatrixView {
    pub row: Seq<nat>,
    pub col_hat: Seq<nat>,
}

impl<const T: usize, const RATE: usize> View for SparseMatrix<T, RATE> {
    type V = SparseMatrixView;

    open spec fn view(&self) -> SparseMatrixView {
        SparseMatrixView { row: values(self.row@), col_hat: values(self.col_hat@) }
    }
}

impl<const T: usize, const RATE: usize> SparseMatrix<T, RATE> {
    /// The dense matrix that this matrix stands for: its row on top, its
    /// column down the left side, and the identity in the rest.
    pub fn to_dense(&self) -> (r: [[FieldElement; T]; T])
        requires
            T == RATE + 1,
        ensures
            matrix_values(r@) == dense_equivalent(self@.row, self@.col_hat),
    {
        let zero = FieldElement::zero();
        let one = FieldElement::one();
        let mut dense = [[zero;T];T];
        dense[0] = self.row;
        let mut i: usize = 1;
        while i < T
            invariant
                1 <= i <= T,
                T == RATE + 1,
                zero@ == 0,
                one@ == 1,
                dense@[0] == self.row,
                forall|k: int|
                    1 <= k < i ==> values(dense@[k]@) == pivot_row(
                        self.col_hat@[k - 1]@,
                        k,
                        T as nat,
                    ),
            decreases T - i,
        {
            let mut row = [zero;T];
            row[0] = self.col_hat[i - 1];
            row[i] = one;
            assert(values(row@) =~= pivot_row(self.col_hat@[i - 1]@, i as int, T as nat));
            dense[i] = row;
            i += 1;
        }
        assert(matrix_values(dense@) =~= dense_equivalent(self@.row, self@.col_hat));
        dense
    }
}

/// The values of a sequence of sparse matrices.
pub open spec fn sparse_values<const T: usize, const RATE: usize>(
    m: Seq<SparseMatrix<T, RATE>>,
) -> Seq<SparseMatrixView> {
    Seq::new(m.len(), |i: int| m[i]@)
}

/// Round counts, round constants and matrices of one permutation.
///
/// `start` holds the constants of the rounds before the partial rounds: its
/// first vector goes into the absorbing round and its last into the round
/// that ends with `pre_sparse_mds`. `partial` and `sparse_matrices` hold one
/// entry for each partial round, and `end` the constants of the full rounds
/// after them.
///
/// A set is well formed where `start` and `end` hold `r_f / 2` vectors
/// each: see [`ParameterSetView::well_formed`]. The round that ends with
/// `pre_sparse_mds` then takes the last vector of `start` a second time.
/// Sets whose constants were folded back through the partial rounds have
/// another layout, [`ParameterSetView::folded`], in which that round has a
/// vector of its own; a hasher takes them only where it is told so.
#[derive(Debug, PartialEq, Eq)]
pub struct ParameterSet<const T: usize, const RATE: usize> {
    pub r_f: usize,
    pub r_p: usize,
    pub start: Vec<[FieldElement; T]>,
    pub partial: Vec<FieldElement>,
    pub end: Vec<[FieldElement; T]>,
    pub mds: [[FieldElement; T]; T],
    pub pre_sparse_mds: [[FieldElement; T]; T],
    pub sparse_matrices: Vec<SparseMatrix<T, RATE>>,
}

/// The values of a [`ParameterSet`].
pub struct ParameterSetView {
    pub r_f: nat,
    pub r_p: nat,
    pub start: Seq<Seq<nat>>,
    pub partial: Seq<nat>,
    pub end: Seq<Seq<nat>>,
    pub mds: Seq<Seq<nat>>,
    pub pre_sparse_mds: Seq<Seq<nat>>,
    pub sparse_matrices: Seq<SparseMatrixView>,
}

impl ParameterSetView {
    /// The round counts are sound: the number of full rounds is even and
    /// not zero, and there is one partial constant and one sparse matrix
    /// for each partial round.
    pub open spec fn rounds_fit(self) -> bool {
        &&& self.r_f % 2 == 0
        &&& self.r_f >= 2
        &&& self.partial.len() == self.r_p
        &&& self.sparse_matrices.len() == self.r_p
    }

    /// The sequences fit the round counts: the counts are sound, and
    /// `start` and `end` hold one vector for each full round of their half,
    /// `r_f / 2` each. Nothing shorter or longer is accepted.
    pub open spec fn well_formed(self) -> bool {
        &&& self.rounds_fit()
        &&& self.start.len() == self.r_f / 2
        &&& self.end.len() == self.r_f / 2
    }

    /// The folded layout: the counts are sound, `start` holds
    /// `r_f / 2 + 1` vectors, the last of them for the round that ends with
    /// `pre_sparse_mds` alone, and `end` holds `r_f / 2 - 1`. This is not a
    /// well-formed set; it is the layout of a set whose constants for the
    /// first round of the second half were carried back through the partial
    /// rounds.
    pub open spec fn folded(self) -> bool {
        &&& self.rounds_fit()
        &&& self.start.len() == self.r_f / 2 + 1
        &&& self.end.len() + 1 == self.r_f / 2
    }
}

impl<const T: usize, const RATE: usize> View for ParameterSet<T, RATE> {
    type V = ParameterSetView;

    open spec fn view(&self) -> ParameterSetView {
        ParameterSetView {
            r_f: self.r_f as nat,
            r_p: self.r_p as nat,
            start: matrix_values(self.start@),
            partial: values(self.partial@),
            end: matrix_values(self.end@),
            mds: matrix_values(self.mds@),
            pre_sparse_mds: matrix_values(self.pre_sparse_mds@),
            sparse_matrices: sparse_values(self.sparse_matrices@),
        }
    }
}

impl<const T: usize, const RATE: usize> Clone for ParameterSet<T, RATE> {
    /// A copy with the same round counts, constants and matrices.
    fn clone(&self) -> (r: Self)
        ensures
            r@ == self@,
    {
        let start = self.start.clone();
        let partial = self.partial.clone();
        let end = self.end.clone();
        let sparse_matrices = self.sparse_matrices.clone();
        assert(matrix_values(start@) =~= matrix_values(self.start@)) by {
            assert forall|i: int| 0 <= i < start@.len() implies start@[i]@ =~= self.start@[i]@ by {
                assert(cloned(self.start@[i], start@[i]));
            }
        }
        assert(matrix_values(end@) =~= matrix_values(self.end@)) by {
            assert forall|i: int| 0 <= i < end@.len() implies end@[i]@ =~= self.end@[i]@ by {
                assert(cloned(self.end@[i], end@[i]));
            }
        }
        assert(values(partial@) =~= values(self.partial@));
        assert(sparse_values(sparse_matrices@) =~= sparse_values(self.sparse_matrices@));
        ParameterSet {
            r_f: self.r_f,
            r_p: self.r_p,
            start,
            partial,
            end,
            mds: self.mds,
            pre_sparse_mds: self.pre_sparse_mds,
            sparse_matrices,
        }
    }
}

impl<const T: usize, const RATE: usize> ParameterSet<T, RATE> {
    /// Whether the round counts are sound.
    fn rounds_fit(&self) -> (b: bool)
        ensures
            b == self@.rounds_fit(),
    {
        self.r_f % 2 == 0 && self.r_f >= 2 && self.partial.len() == self.r_p
            && self.sparse_matrices.len() == self.r_p
    }

    /// Checks the lengths of the sequences against the round counts.
    pub fn validate(&self) -> (r: Result<(), PoseidonError>)
        ensures
            r is Ok <==> self@.well_formed(),
            r is Err ==> r == Err::<(), PoseidonError>(PoseidonError::MalformedParameterSet),
    {
        let half = self.r_f / 2;
        if self.rounds_fit() && self.start.len() == half && self.end.len() == half {
            Ok(())
        } else {
            Err(PoseidonError::MalformedParameterSet)
        }
    }

    /// Checks the lengths of the sequences against the folded layout.
    pub fn validate_folded(&self) -> (r: Result<(), PoseidonError>)
        ensures
            r is Ok <==> self@.folded(),
            r is Err ==> r == Err::<(), PoseidonError>(PoseidonError::MalformedParameterSet),
    {
        let half = self.r_f / 2;
        if self.rounds_fit() && self.start.len() == half + 1 && self.end.len() == half - 1 {
            Ok(())
        } else {
            Err(PoseidonError::MalformedParameterSet)
        }
    }
}

} // verus!
