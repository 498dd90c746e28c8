use halo2curves::bn256::Fr;
use halo2curves::ff::PrimeField;
use poseidon_hash::{FieldElement, SparseMatrix, State};

type S = State<3, 2>;

fn n(v: u64) -> FieldElement {
    FieldElement::from_u64(v)
}

fn dec(s: &str) -> FieldElement {
    FieldElement::from_bytes(Fr::from_str_vartime(s).unwrap().to_bytes()).unwrap()
}

/// The element `p - k`.
fn minus(k: u64) -> FieldElement {
    FieldElement::from_bytes((-Fr::from(k)).to_bytes()).unwrap()
}

fn state(a: u64, b: u64, c: u64) -> S {
    State::new([n(a), n(b), n(c)])
}

#[test]
fn new_keeps_the_words() {
    let s = state(1, 2, 3);
    assert_eq!(s.inner, [n(1), n(2), n(3)]);
}

#[test]
fn sbox_full_raises_and_adds() {
    let mut s = state(1, 2, 3);
    s.sbox_full(&[n(10), n(20), n(30)]);
    assert_eq!(s, state(11, 52, 273));
}

#[test]
fn sbox_full_wraps_around_the_modulus() {
    let mut s = S::new([minus(1), n(2), minus(2)]);
    s.sbox_full(&[n(1), minus(32), n(32)]);
    assert_eq!(s, state(0, 0, 0));
}

#[test]
fn sbox_part_touches_word_zero_only() {
    let mut s = state(2, 5, 6);
    s.sbox_part(&n(100));
    assert_eq!(s, state(132, 5, 6));
    let mut s = S::new([minus(1), n(5), n(6)]);
    s.sbox_part(&n(1));
    assert_eq!(s, state(0, 5, 6));
}

#[test]
fn pre_round_without_input_pads_word_one() {
    let mut s = state(1, 2, 3);
    s.pre_round(&[], &[n(10), n(20), n(30)]);
    assert_eq!(s, state(11, 23, 33));
}

#[test]
fn pre_round_with_one_input_pads_word_two() {
    let mut s = state(1, 2, 3);
    s.pre_round(&[n(5)], &[n(10), n(20), n(30)]);
    assert_eq!(s, state(11, 27, 34));
}

#[test]
fn pre_round_with_a_full_chunk_has_no_padding() {
    let mut s = state(1, 2, 3);
    s.pre_round(&[n(5), n(6)], &[n(10), n(20), n(30)]);
    assert_eq!(s, state(11, 27, 39));
}

#[test]
fn pre_round_pads_only_the_first_free_word() {
    let mut s: State<5, 4> = State::new([n(1), n(2), n(3), n(4), n(5)]);
    s.pre_round(&[n(7)], &[n(10), n(20), n(30), n(40), n(50)]);
    assert_eq!(s.inner, [n(11), n(29), n(34), n(44), n(55)]);
}

#[test]
fn pre_round_wraps_around_the_modulus() {
    let mut s = S::new([minus(1), minus(1), minus(1)]);
    s.pre_round(&[minus(1)], &[n(1), n(1), n(1)]);
    assert_eq!(s, S::new([n(0), minus(1), n(1)]));
}

#[test]
fn pre_round_tells_an_input_from_its_zero_extension() {
    let constants = [n(10), n(20), n(30)];
    let mut short = state(1, 2, 3);
    short.pre_round(&[n(5)], &constants);
    let mut long = state(1, 2, 3);
    long.pre_round(&[n(5), n(0)], &constants);
    assert_ne!(short, long);
    assert_eq!(short, state(11, 27, 34));
    assert_eq!(long, state(11, 27, 33));
}

#[test]
fn apply_mds_multiplies_rows_by_the_state() {
    let mut s = state(1, 2, 3);
    s.apply_mds(&[[n(1), n(2), n(3)], [n(4), n(5), n(6)], [n(7), n(8), n(9)]]);
    assert_eq!(s, state(14, 32, 50));
}

#[test]
fn apply_mds_uses_the_old_state_for_every_row() {
    let mut s = state(1, 1, 1);
    s.apply_mds(&[[n(2), n(0), n(0)], [n(1), n(0), n(0)], [n(1), n(1), n(1)]]);
    assert_eq!(s, state(2, 1, 3));
}

#[test]
fn apply_mds_wraps_around_the_modulus() {
    let mut s = S::new([minus(1), n(1), n(2)]);
    s.apply_mds(&[
        [minus(1), n(0), n(0)],
        [n(1), n(1), n(1)],
        [minus(1), minus(1), minus(1)],
    ]);
    assert_eq!(s, S::new([n(1), n(2), minus(2)]));
}

#[test]
fn apply_sparse_mds_follows_the_pivot_form() {
    let mut s = state(1, 2, 3);
    s.apply_sparse_mds(&SparseMatrix { row: [n(2), n(3), n(4)], col_hat: [n(5), n(6)] });
    assert_eq!(s, state(20, 7, 9));
}

#[test]
fn apply_sparse_mds_wraps_around_the_modulus() {
    let mut s = S::new([minus(1), n(1), n(2)]);
    s.apply_sparse_mds(&SparseMatrix { row: [minus(1), n(1), n(1)], col_hat: [minus(1), n(2)] });
    assert_eq!(s, state(4, 2, 0));
}

#[test]
fn sparse_and_dense_forms_agree_on_a_small_matrix() {
    let sparse = SparseMatrix { row: [n(2), n(3), n(4)], col_hat: [n(5), n(6)] };
    let dense = [[n(2), n(3), n(4)], [n(5), n(1), n(0)], [n(6), n(0), n(1)]];
    let mut a = S::new([dec("123456789012345678901234567890"), minus(7), n(99)]);
    let mut b = a;
    a.apply_sparse_mds(&sparse);
    b.apply_mds(&dense);
    assert_eq!(a, b);
}

#[test]
fn to_dense_puts_the_row_on_top_and_the_column_on_the_left() {
    let sparse: SparseMatrix<3, 2> =
        SparseMatrix { row: [n(2), n(3), n(4)], col_hat: [n(5), n(6)] };
    assert_eq!(
        sparse.to_dense(),
        [[n(2), n(3), n(4)], [n(5), n(1), n(0)], [n(6), n(0), n(1)]]
    );
    let narrow: SparseMatrix<2, 1> = SparseMatrix { row: [n(7), n(8)], col_hat: [n(9)] };
    assert_eq!(narrow.to_dense(), [[n(7), n(8)], [n(9), n(1)]]);
}

#[test]
fn sparse_and_dense_forms_agree_through_to_dense() {
    let sparse: SparseMatrix<4, 3> = SparseMatrix {
        row: [minus(1), n(3), minus(4), n(5)],
        col_hat: [minus(6), n(7), minus(8)],
    };
    let mut a: State<4, 3> = State::new([minus(9), n(10), minus(11), n(12)]);
    let mut b = a;
    a.apply_sparse_mds(&sparse);
    b.apply_mds(&sparse.to_dense());
    assert_eq!(a, b);
    assert_eq!(a.inner, [n(143), n(64), minus(74), n(84)]);
}
