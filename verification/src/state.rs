//! The permutation state and its round operations.
//!
//! Each operation has a model over sequences of field values, and the
//! executable operation on a [`State`] is proved to compute it.

use crate::field::{
    fadd, field_add, field_mul, fmul, lemma_equal_values, matrix_values, modulus, pow5, values,
    FieldElement,
};
use crate::linear::{apply_dense, apply_sparse, dot, lemma_dot_step, sum_products};
use crate::params::SparseMatrix;
use vstd::arithmetic::div_mod::{lemma_add_mod_noop, lemma_fundamental_div_mod, lemma_small_mod};
use vstd::prelude::*;

verus! {

/// Every word `v` replaced by `v^5 + c`, `c` its round constant.
pub open spec fn sbox_full_spec(s: Seq<nat>, constants: Seq<nat>) -> Seq<nat> {
    Seq::new(s.len(), |i: int| fadd(pow5(s[i]), constants[i]))
}

/// Word 0 replaced by its fifth power plus `constant`; the rest unchanged.
pub open spec fn sbox_part_spec(s: Seq<nat>, constant: nat) -> Seq<nat> {
    s.update(0, fadd(pow5(s[0]), constant))
}

/// What absorption adds to word `i` besides its round constant: nothing to
/// word 0, input `i - 1` to the words that follow, one to the first word
/// after the inputs, and nothing beyond it.
pub open spec fn absorbed(inputs: Seq<nat>, i: int) -> nat {
    if 1 <= i <= inputs.len() {
        inputs[i - 1]
    } else if i == inputs.len() + 1 {
        1
    } else {
        0
    }
}

/// The first round, fused with absorption and padding: every word gets its
/// round constant and [`absorbed`] added.
pub open spec fn pre_round_spec(s: Seq<nat>, inputs: Seq<nat>, constants: Seq<nat>) -> Seq<nat> {
    Seq::new(s.len(), |i: int| (s[i] + absorbed(inputs, i) + constants[i]) % modulus())
}

/// A state of `T` words, of which `RATE` take input.
#[derive(Clone, Copy, Debug, PartialEq, Eq)]
pub struct State<const T: usize, const RATE: usize> {
    pub inner: [FieldElement; T],
}

impl<const T: usize, const RATE: usize> View for State<T, RATE> {
    type V = Seq<nat>;

    open spec fn view(&self) -> Seq<nat> {
        values(self.inner@)
    }
}

impl<const T: usize, const RATE: usize> State<T, RATE> {
    /// A state with the given words.
    pub fn new(inner: [FieldElement; T]) -> (r: Self)
        ensures
            r.inner == inner,
    {
        Self { inner }
    }

    /// The full S-box layer: every word is raised to the fifth power, then
    /// its round constant is added.
    pub fn sbox_full(&mut self, constants: &[FieldElement; T])
        ensures
            final(self)@ == sbox_full_spec(old(self)@, values(constants@)),
    {
        let mut i: usize = 0;
        while i < T
            invariant
                i <= T,
                forall|k: int|
                    0 <= k < i ==> self.inner@[k]@ == fadd(
                        pow5(old(self).inner@[k]@),
                        constants@[k]@,
                    ),
                forall|k: int| i <= k < T ==> self.inner@[k] == old(self).inner@[k],
            decreases T - i,
        {
            let v = self.inner[i].pow5();
            self.inner[i] = field_add(&v, &constants[i]);
            i += 1;
        }
        assert(self@ =~= sbox_full_spec(old(self)@, values(constants@)));
    }

    /// The partial S-box layer: word 0 is raised to the fifth power, then
    /// the round constant is added.
    pub fn sbox_part(&mut self, constant: &FieldElement)
        requires
            T >= 1,
        ensures
            final(self)@ == sbox_part_spec(old(self)@, constant@),
    {
        let v = self.inner[0].pow5();
        self.inner[0] = field_add(&v, constant);
        assert(self@ =~= sbox_part_spec(old(self)@, constant@));
    }

    /// The first round of a permutation: adds the round constants, the
    /// inputs to the words after word 0, and one to the first word after
    /// the inputs, if there is such a word.
    pub fn pre_round(&mut self, inputs: &[FieldElement], pre_constants: &[FieldElement; T])
        requires
            T == RATE + 1,
            inputs@.len() <= RATE,
        ensures
            final(self)@ == pre_round_spec(old(self)@, values(inputs@), values(pre_constants@)),
    {
        let ghost before = old(self)@;
        let ghost ins = values(inputs@);
        let ghost cs = values(pre_constants@);
        self.inner[0] = field_add(&self.inner[0], &pre_constants[0]);

        // The words that take an input.
        let mut i: usize = 0;
        while i < inputs.len()
            invariant
                i <= inputs@.len() <= RATE,
                T == RATE + 1,
                before == old(self)@,
                ins == values(inputs@),
                cs == values(pre_constants@),
                forall|k: int| 0 <= k <= i ==> self@[k] == pre_round_spec(before, ins, cs)[k],
                forall|k: int| i < k < T ==> self.inner@[k] == old(self).inner@[k],
            decreases inputs@.len() - i,
        {
            let sum = field_add(&self.inner[1 + i], &inputs[i]);
            self.inner[1 + i] = field_add(&sum, &pre_constants[1 + i]);
            proof {
                lemma_add_three(before[1 + i], ins[i as int], cs[1 + i]);
            }
            i += 1;
        }

        // The word that takes the padding, and the words after it.
        let first = 1 + inputs.len();
        let mut j: usize = first;
        while j < T
            invariant
                first == 1 + inputs@.len(),
                first <= j <= T,
                before == old(self)@,
                ins == values(inputs@),
                cs == values(pre_constants@),
                forall|k: int| 0 <= k < j ==> self@[k] == pre_round_spec(before, ins, cs)[k],
                forall|k: int| j <= k < T ==> self.inner@[k] == old(self).inner@[k],
            decreases T - j,
        {
            if j == first {
                let one = FieldElement::one();
                let sum = field_add(&self.inner[j], &one);
                self.inner[j] = field_add(&sum, &pre_constants[j]);
                proof {
                    lemma_add_three(before[j as int], 1, cs[j as int]);
                }
            } else {
                self.inner[j] = field_add(&self.inner[j], &pre_constants[j]);
            }
            j += 1;
        }
        assert(self@ =~= pre_round_spec(before, ins, cs));
    }

    /// The dense linear layer: the state is multiplied by `mds`.
    pub fn apply_mds(&mut self, mds: &[[FieldElement; T]; T])
        ensures
            final(self)@ == apply_dense(matrix_values(mds@), old(self)@),
    {
        let mut next = [FieldElement::zero();T];
        let mut i: usize = 0;
        while i < T
            invariant
                i <= T,
                forall|k: int| 0 <= k < i ==> next@[k]@ == dot(values(mds@[k]@), self@),
            decreases T - i,
        {
            next[i] = dot_product(&mds[i], &self.inner);
            i += 1;
        }
        self.inner = next;
        assert(self@ =~= apply_dense(matrix_values(mds@), old(self)@));
    }

    /// The sparse linear layer: word 0 becomes the dot product of the
    /// matrix's row with the state, and every other word has its multiple of
    /// the old word 0 added.
    pub fn apply_sparse_mds(&mut self, mds: &SparseMatrix<T, RATE>)
        requires
            T == RATE + 1,
        ensures
            final(self)@ == apply_sparse(mds@.row, mds@.col_hat, old(self)@),
    {
        let mut next = [FieldElement::zero();T];
        next[0] = dot_product(&mds.row, &self.inner);
        let mut i: usize = 1;
        while i < T
            invariant
                1 <= i <= T,
                T == RATE + 1,
                next@[0]@ == dot(values(mds.row@), self@),
                forall|k: int|
                    1 <= k < i ==> next@[k]@ == fadd(
                        fmul(mds.col_hat@[k - 1]@, self.inner@[0]@),
                        self.inner@[k]@,
                    ),
            decreases T - i,
        {
            let scaled = field_mul(&mds.col_hat[i - 1], &self.inner[0]);
            next[i] = field_add(&scaled, &self.inner[i]);
            i += 1;
        }
        self.inner = next;
        assert(self@ =~= apply_sparse(mds@.row, mds@.col_hat, old(self)@));
    }
}

/// The dot product of a matrix row with the words of a state.
fn dot_product<const T: usize>(row: &[FieldElement; T], words: &[FieldElement; T]) -> (r:
    FieldElement)
    ensures
        r@ == dot(values(row@), values(words@)),
{
    let mut acc = FieldElement::zero();
    let mut j: usize = 0;
    proof {
        lemma_small_mod(0, modulus());
    }
    while j < T
        invariant
            j <= T,
            acc@ == sum_products(values(row@), values(words@), j as nat) % modulus(),
        decreases T - j,
    {
        let term = field_mul(&words[j], &row[j]);
        proof {
            lemma_dot_step(values(row@), values(words@), j as nat, acc@);
        }
        acc = field_add(&acc, &term);
        j += 1;
    }
    acc
}

/// States with equal values are equal.
pub proof fn lemma_equal_states<const T: usize, const RATE: usize>(
    a: State<T, RATE>,
    b: State<T, RATE>,
)
    requires
        a@ == b@,
    ensures
        a == b,
{
    assert forall|i: int| 0 <= i < T implies a.inner@[i] == b.inner@[i] by {
        assert(a@[i] == a.inner@[i]@);
        assert(b@[i] == b.inner@[i]@);
        lemma_equal_values(a.inner@[i], b.inner@[i]);
    }
    assert(a.inner =~= b.inner);
}

/// Two additions in the field add up all three terms.
proof fn lemma_add_three(a: nat, b: nat, c: nat)
    ensures
        fadd(fadd(a, b), c) == (a + b + c) % modulus(),
{
    lemma_add_mod_noop((a + b) as int, c as int, modulus() as int);
    lemma_add_mod_noop(((a + b) % modulus()) as int, c as int, modulus() as int);
    vstd::arithmetic::div_mod::lemma_mod_twice((a + b) as int, modulus() as int);
}

/// Padding tells an input from its extension by a zero: where the one
/// that marks the end of the input falls inside the state, the absorbing
/// round leaves different states for `inputs` and for `inputs` followed by
/// zero.
pub proof fn lemma_padding_separates(s: Seq<nat>, inputs: Seq<nat>, constants: Seq<nat>)
    requires
        inputs.len() + 2 <= s.len(),
    ensures
        pre_round_spec(s, inputs, constants) != pre_round_spec(s, inputs.push(0), constants),
{
    let i = inputs.len() as int + 1;
    let base = (s[i] + constants[i]) as int;
    let p = modulus() as int;
    let short = pre_round_spec(s, inputs, constants);
    let long = pre_round_spec(s, inputs.push(0), constants);
    assert(absorbed(inputs, i) == 1);
    assert(absorbed(inputs.push(0), i) == 0);
    assert(short[i] == (base + 1) % p);
    assert(long[i] == base % p);
    lemma_successor_differs(base, p);
}

/// Consecutive integers differ modulo any modulus above one.
proof fn lemma_successor_differs(x: int, m: int)
    requires
        m > 1,
    ensures
        (x + 1) % m != x % m,
{
    lemma_fundamental_div_mod(x, m);
    lemma_fundamental_div_mod(x + 1, m);
    if (x + 1) % m == x % m {
        let q1 = (x + 1) / m;
        let q0 = x / m;
        assert(m * q1 - m * q0 == 1);
        assert(m * (q1 - q0) == 1) by (nonlinear_arith)
            requires
                m * q1 - m * q0 == 1,
        ;
        assert(false) by (nonlinear_arith)
            requires
                m > 1,
                m * (q1 - q0) == 1,
        ;
    }
}

} // verus!
