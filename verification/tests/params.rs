use poseidon_hash::{FieldElement, ParameterSet, PoseidonError, PoseidonHash, SparseMatrix, State};

const MALFORMED: Option<PoseidonError> = Some(PoseidonError::MalformedParameterSet);
const DIMENSION: Option<PoseidonError> = Some(PoseidonError::DimensionError);

fn n(v: u64) -> FieldElement {
    FieldElement::from_u64(v)
}

/// A set of the given shape, every entry one.
fn shaped<const T: usize, const RATE: usize>(
    r_f: usize,
    r_p: usize,
    start: usize,
    partial: usize,
    end: usize,
    sparse: usize,
) -> ParameterSet<T, RATE> {
    ParameterSet {
        r_f,
        r_p,
        start: vec![[n(1); T]; start],
        partial: vec![n(1); partial],
        end: vec![[n(1); T]; end],
        mds: [[n(1); T]; T],
        pre_sparse_mds: [[n(1); T]; T],
        sparse_matrices: vec![SparseMatrix { row: [n(1); T], col_hat: [n(1); RATE] }; sparse],
    }
}

/// What `new` and `with_state` say of a set.
fn error<const T: usize, const RATE: usize>(spec: ParameterSet<T, RATE>) -> Option<PoseidonError> {
    let plain = PoseidonHash::new(spec.clone()).err();
    let seeded = PoseidonHash::with_state(spec.clone(), State::new([n(0); T])).err();
    assert_eq!(plain, seeded);
    if T == RATE + 1 && RATE >= 1 {
        assert_eq!(spec.validate().err(), plain);
    }
    plain
}

/// What `with_folded_constants` says of a set.
fn folded_error<const T: usize, const RATE: usize>(
    spec: ParameterSet<T, RATE>,
) -> Option<PoseidonError> {
    let e = PoseidonHash::with_folded_constants(spec.clone(), State::new([n(0); T])).err();
    if T == RATE + 1 && RATE >= 1 {
        assert_eq!(spec.validate_folded().err(), e);
    }
    e
}

#[test]
fn accepts_two_halves_of_half_the_full_rounds() {
    assert_eq!(shaped::<4, 3>(8, 56, 4, 56, 4, 56).validate(), Ok(()));
    assert_eq!(error(shaped::<4, 3>(8, 56, 4, 56, 4, 56)), None);
}

#[test]
fn accepts_the_smallest_set() {
    assert_eq!(error(shaped::<2, 1>(2, 0, 1, 0, 1, 0)), None);
}

#[test]
fn rejects_a_first_half_with_a_vector_more() {
    assert_eq!(error(shaped::<4, 3>(8, 56, 5, 56, 3, 56)), MALFORMED);
    assert_eq!(error(shaped::<4, 3>(8, 56, 5, 56, 4, 56)), MALFORMED);
    assert_eq!(error(shaped::<2, 1>(2, 0, 2, 0, 0, 0)), MALFORMED);
}

#[test]
fn rejects_an_odd_number_of_full_rounds() {
    assert_eq!(error(shaped::<4, 3>(7, 56, 3, 56, 3, 56)), MALFORMED);
    assert_eq!(error(shaped::<4, 3>(9, 56, 4, 56, 4, 56)), MALFORMED);
}

#[test]
fn rejects_no_full_rounds() {
    assert_eq!(error(shaped::<4, 3>(0, 56, 0, 56, 0, 56)), MALFORMED);
    assert_eq!(error(shaped::<4, 3>(0, 56, 1, 56, 0, 56)), MALFORMED);
}

#[test]
fn rejects_partial_constants_that_miss_the_round_count() {
    assert_eq!(error(shaped::<4, 3>(8, 56, 4, 55, 4, 56)), MALFORMED);
    assert_eq!(error(shaped::<4, 3>(8, 56, 4, 57, 4, 56)), MALFORMED);
}

#[test]
fn rejects_sparse_matrices_that_miss_the_round_count() {
    assert_eq!(error(shaped::<4, 3>(8, 56, 4, 56, 4, 55)), MALFORMED);
    assert_eq!(error(shaped::<4, 3>(8, 56, 4, 56, 4, 57)), MALFORMED);
}

#[test]
fn rejects_a_first_half_that_misses_the_round_count() {
    assert_eq!(error(shaped::<4, 3>(8, 56, 3, 56, 4, 56)), MALFORMED);
    assert_eq!(error(shaped::<4, 3>(8, 56, 3, 56, 5, 56)), MALFORMED);
    assert_eq!(error(shaped::<4, 3>(8, 56, 6, 56, 2, 56)), MALFORMED);
    assert_eq!(error(shaped::<4, 3>(8, 56, 0, 56, 4, 56)), MALFORMED);
}

#[test]
fn rejects_a_second_half_that_misses_the_round_count() {
    assert_eq!(error(shaped::<4, 3>(8, 56, 4, 56, 3, 56)), MALFORMED);
    assert_eq!(error(shaped::<4, 3>(8, 56, 4, 56, 5, 56)), MALFORMED);
    assert_eq!(error(shaped::<4, 3>(8, 56, 4, 56, 0, 56)), MALFORMED);
}

#[test]
fn rejects_a_width_that_is_not_the_rate_plus_one() {
    assert_eq!(error(shaped::<4, 2>(8, 56, 4, 56, 4, 56)), DIMENSION);
    assert_eq!(error(shaped::<4, 4>(8, 56, 4, 56, 4, 56)), DIMENSION);
    assert_eq!(error(shaped::<3, 4>(8, 56, 4, 56, 4, 56)), DIMENSION);
}

#[test]
fn rejects_a_rate_of_zero() {
    assert_eq!(error(shaped::<1, 0>(8, 56, 4, 56, 4, 56)), DIMENSION);
    assert_eq!(error(shaped::<0, 0>(8, 56, 4, 56, 4, 56)), DIMENSION);
}

#[test]
fn reports_the_dimensions_before_the_lengths() {
    assert_eq!(error(shaped::<4, 2>(7, 56, 0, 0, 0, 0)), DIMENSION);
    assert_eq!(folded_error(shaped::<4, 2>(7, 56, 0, 0, 0, 0)), DIMENSION);
}

#[test]
fn validate_does_not_look_at_the_dimensions() {
    assert_eq!(shaped::<4, 2>(8, 56, 4, 56, 4, 56).validate(), Ok(()));
    assert_eq!(shaped::<4, 2>(8, 56, 5, 56, 3, 56).validate_folded(), Ok(()));
}

#[test]
fn the_folded_layout_is_taken_where_it_is_asked_for() {
    assert_eq!(folded_error(shaped::<4, 3>(8, 56, 5, 56, 3, 56)), None);
    assert_eq!(folded_error(shaped::<2, 1>(2, 0, 2, 0, 0, 0)), None);
}

#[test]
fn the_folded_layout_takes_no_other_lengths() {
    assert_eq!(folded_error(shaped::<4, 3>(8, 56, 4, 56, 4, 56)), MALFORMED);
    assert_eq!(folded_error(shaped::<4, 3>(8, 56, 5, 56, 4, 56)), MALFORMED);
    assert_eq!(folded_error(shaped::<4, 3>(8, 56, 5, 56, 2, 56)), MALFORMED);
    assert_eq!(folded_error(shaped::<4, 3>(8, 56, 6, 56, 2, 56)), MALFORMED);
    assert_eq!(folded_error(shaped::<4, 3>(8, 56, 4, 56, 3, 56)), MALFORMED);
    assert_eq!(folded_error(shaped::<2, 1>(2, 0, 1, 0, 1, 0)), MALFORMED);
}

#[test]
fn the_folded_layout_keeps_the_other_checks() {
    assert_eq!(folded_error(shaped::<4, 3>(7, 56, 4, 56, 2, 56)), MALFORMED);
    assert_eq!(folded_error(shaped::<4, 3>(0, 56, 1, 56, 0, 56)), MALFORMED);
    assert_eq!(folded_error(shaped::<4, 3>(8, 56, 5, 55, 3, 56)), MALFORMED);
    assert_eq!(folded_error(shaped::<4, 3>(8, 56, 5, 56, 3, 57)), MALFORMED);
    assert_eq!(folded_error(shaped::<1, 0>(8, 56, 5, 56, 3, 56)), DIMENSION);
}
