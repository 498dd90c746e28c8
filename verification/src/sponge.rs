//! The sponge: absorb field elements, squeeze digests.
//!
//! A [`PoseidonHash`] collects what it is given and runs no permutation
//! until a digest is asked for. Its view, a [`SpongeView`], has the three
//! steps of its life as functions: [`SpongeView::absorb`],
//! [`SpongeView::permute`] and [`SpongeView::squeeze`]. The executable
//! methods are proved to take the hasher from one view to the next, and the
//! lemmas at the end of the module say what follows for whole runs.

use crate::field::{values, FieldElement};
use crate::params::{dimensions_fit, ParameterSet, ParameterSetView, PoseidonError};
use crate::permutation::{full_rounds, partial_rounds, permute, zeros};
use crate::state::State;
use vstd::prelude::*;
use vstd::slice::slice_subrange;

verus! {

/// The state after the chunks of `buf`, each of `rate` elements but
/// possibly the last, have gone through one permutation each.
pub open spec fn absorb_chunks(p: ParameterSetView, s: Seq<nat>, buf: Seq<nat>, rate: nat) -> Seq<
    nat,
>
    decreases buf.len(),
{
    if buf.len() == 0 || rate == 0 {
        s
    } else if buf.len() <= rate {
        permute(p, s, buf)
    } else {
        absorb_chunks(p, permute(p, s, buf.take(rate as int)), buf.skip(rate as int), rate)
    }
}

/// The state after a squeeze: the chunks of `buf` are absorbed, and where
/// the length of `buf` is a multiple of the rate, zero included, one more
/// permutation without input follows.
pub open spec fn squeeze_state(p: ParameterSetView, s: Seq<nat>, buf: Seq<nat>, rate: nat) -> Seq<
    nat,
> {
    let absorbed = absorb_chunks(p, s, buf, rate);
    if buf.len() % rate == 0 {
        permute(p, absorbed, Seq::empty())
    } else {
        absorbed
    }
}

/// What a hasher holds: its parameters, its state, and the elements
/// absorbed since the last squeeze.
pub struct SpongeView {
    pub params: ParameterSetView,
    pub state: Seq<nat>,
    pub buf: Seq<nat>,
}

impl SpongeView {
    /// The hasher after `elements` were absorbed.
    pub open spec fn absorb(self, elements: Seq<nat>) -> SpongeView {
        SpongeView { buf: self.buf + elements, ..self }
    }

    /// The hasher after one permutation that absorbs `inputs`.
    pub open spec fn permute(self, inputs: Seq<nat>) -> SpongeView {
        SpongeView { state: permute(self.params, self.state, inputs), ..self }
    }

    /// The hasher after a squeeze at rate `rate`.
    pub open spec fn squeeze(self, rate: nat) -> SpongeView {
        SpongeView {
            state: squeeze_state(self.params, self.state, self.buf, rate),
            buf: Seq::empty(),
            ..self
        }
    }

    /// The digest that the state shows: word 1.
    pub open spec fn digest(self) -> nat {
        self.state[1]
    }
}

/// A Poseidon hasher of width `T` and rate `RATE`.
#[derive(Debug)]
pub struct PoseidonHash<const T: usize, const RATE: usize> {
    params: ParameterSet<T, RATE>,
    state: State<T, RATE>,
    buf: Vec<FieldElement>,
}

impl<const T: usize, const RATE: usize> View for PoseidonHash<T, RATE> {
    type V = SpongeView;

    closed spec fn view(&self) -> SpongeView {
        SpongeView { params: self.params@, state: self.state@, buf: values(self.buf@) }
    }
}

impl<const T: usize, const RATE: usize> Clone for PoseidonHash<T, RATE> {
    /// A hasher with the same parameters, state and pending elements.
    fn clone(&self) -> (r: Self)
        ensures
            r@ == self@,
    {
        proof {
            use_type_invariant(self);
        }
        let buf = self.buf.clone();
        assert(values(buf@) =~= values(self.buf@));
        PoseidonHash { params: self.params.clone(), state: self.state, buf }
    }
}

impl<const T: usize, const RATE: usize> PoseidonHash<T, RATE> {
    /// The dimensions fit, and the parameters are well formed or folded.
    #[verifier::type_invariant]
    spec fn inv(&self) -> bool {
        dimensions_fit(T as nat, RATE as nat) && (self.params@.well_formed()
            || self.params@.folded())
    }

    /// A hasher with the given parameters, its state all zero and nothing
    /// absorbed.
    pub fn new(constants: ParameterSet<T, RATE>) -> (r: Result<Self, PoseidonError>)
        ensures
            match r {
                Ok(h) => dimensions_fit(T as nat, RATE as nat) && constants@.well_formed() && h@
                    == (SpongeView {
                    params: constants@,
                    state: zeros(T as nat),
                    buf: Seq::empty(),
                }),
                Err(PoseidonError::DimensionError) => !dimensions_fit(T as nat, RATE as nat),
                Err(PoseidonError::MalformedParameterSet) => dimensions_fit(T as nat, RATE as nat)
                    && !constants@.well_formed(),
                Err(PoseidonError::OverCapacityInput) => false,
            },
    {
        let state = State::new([FieldElement::zero();T]);
        assert(state@ =~= zeros(T as nat));
        Self::with_state(constants, state)
    }

    /// A hasher with the given parameters that starts from the given state,
    /// with nothing absorbed. This is the way to a sponge that marks its
    /// capacity word before the first absorption.
    pub fn with_state(constants: ParameterSet<T, RATE>, state: State<T, RATE>) -> (r: Result<
        Self,
        PoseidonError,
    >)
        ensures
            match r {
                Ok(h) => dimensions_fit(T as nat, RATE as nat) && constants@.well_formed() && h@
                    == (SpongeView { params: constants@, state: state@, buf: Seq::empty() }),
                Err(PoseidonError::DimensionError) => !dimensions_fit(T as nat, RATE as nat),
                Err(PoseidonError::MalformedParameterSet) => dimensions_fit(T as nat, RATE as nat)
                    && !constants@.well_formed(),
                Err(PoseidonError::OverCapacityInput) => false,
            },
    {
        if RATE < 1 || T < 1 || T - 1 != RATE {
            return Err(PoseidonError::DimensionError);
        }
        match constants.validate() {
            Ok(()) => {
                let buf: Vec<FieldElement> = Vec::new();
                assert(values(buf@) =~= Seq::<nat>::empty());
                Ok(Self { params: constants, state, buf })
            },
            Err(e) => Err(e),
        }
    }

    /// A hasher for parameters in the folded layout, in which `start`
    /// holds `r_f / 2 + 1` vectors and `end` holds `r_f / 2 - 1`: see
    /// [`ParameterSetView::folded`]. It starts from the given state with
    /// nothing absorbed. Parameters in any other layout are refused, the
    /// well-formed one too.
    pub fn with_folded_constants(constants: ParameterSet<T, RATE>, state: State<T, RATE>) -> (r:
        Result<Self, PoseidonError>)
        ensures
            match r {
                Ok(h) => dimensions_fit(T as nat, RATE as nat) && constants@.folded() && h@ == (
                SpongeView { params: constants@, state: state@, buf: Seq::empty() }),
                Err(PoseidonError::DimensionError) => !dimensions_fit(T as nat, RATE as nat),
                Err(PoseidonError::MalformedParameterSet) => dimensions_fit(T as nat, RATE as nat)
                    && !constants@.folded(),
                Err(PoseidonError::OverCapacityInput) => false,
            },
    {
        if RATE < 1 || T < 1 || T - 1 != RATE {
            return Err(PoseidonError::DimensionError);
        }
        match constants.validate_folded() {
            Ok(()) => {
                let buf: Vec<FieldElement> = Vec::new();
                assert(values(buf@) =~= Seq::<nat>::empty());
                Ok(Self { params: constants, state, buf })
            },
            Err(e) => Err(e),
        }
    }

    /// The state as it stands.
    pub fn state(&self) -> (r: State<T, RATE>)
        ensures
            r@ == self@.state,
    {
        self.state
    }

    /// One permutation of the state that absorbs `inputs`, at most `RATE`
    /// of them.
    pub fn permutation(&mut self, inputs: &[FieldElement])
        requires
            inputs@.len() <= RATE,
        ensures
            final(self)@ == old(self)@.permute(values(inputs@)),
    {
        proof {
            use_type_invariant(&*self);
        }
        let ghost p = self.params@;
        // The rounds run on a copy of the state, written back at the end.
        let mut state = self.state;
        let r_f = self.params.r_f / 2;

        // First half of the full rounds
        state.pre_round(inputs, &self.params.start[0]);
        let ghost absorbed = state@;
        let mut i: usize = 1;
        while i < r_f
            invariant
                1 <= i <= r_f,
                r_f <= self.params.start@.len(),
                p == self.params@,
                state@ == full_rounds(absorbed, p.start.skip(1), p.mds, (i - 1) as nat),
            decreases r_f - i,
        {
            state.sbox_full(&self.params.start[i]);
            state.apply_mds(&self.params.mds);
            i += 1;
        }
        let last = self.params.start.len() - 1;
        state.sbox_full(&self.params.start[last]);
        state.apply_mds(&self.params.pre_sparse_mds);

        // Partial rounds
        let ghost turned = state@;
        let mut i: usize = 0;
        while i < self.params.r_p
            invariant
                i <= self.params.r_p,
                T == RATE + 1,
                self.params.partial@.len() == self.params.r_p,
                self.params.sparse_matrices@.len() == self.params.r_p,
                p == self.params@,
                state@ == partial_rounds(turned, p.partial, p.sparse_matrices, i as nat),
            decreases self.params.r_p - i,
        {
            state.sbox_part(&self.params.partial[i]);
            state.apply_sparse_mds(&self.params.sparse_matrices[i]);
            i += 1;
        }

        // Second half of the full rounds
        let ghost middle = state@;
        let mut i: usize = 0;
        while i < self.params.end.len()
            invariant
                i <= self.params.end@.len(),
                p == self.params@,
                state@ == full_rounds(middle, p.end, p.mds, i as nat),
            decreases self.params.end@.len() - i,
        {
            state.sbox_full(&self.params.end[i]);
            state.apply_mds(&self.params.mds);
            i += 1;
        }
        let zero = [FieldElement::zero();T];
        assert(values(zero@) =~= zeros(T as nat));
        state.sbox_full(&zero);
        state.apply_mds(&self.params.mds);
        self.state = state;
    }

    /// One permutation of the state that absorbs `inputs`, refused where
    /// there are more of them than `RATE`.
    pub fn try_permutation(&mut self, inputs: &[FieldElement]) -> (r: Result<(), PoseidonError>)
        ensures
            inputs@.len() <= RATE ==> r is Ok && final(self)@ == old(self)@.permute(
                values(inputs@),
            ),
            inputs@.len() > RATE ==> r == Err::<(), PoseidonError>(
                PoseidonError::OverCapacityInput,
            ) && final(self)@ == old(self)@,
    {
        if inputs.len() > RATE {
            return Err(PoseidonError::OverCapacityInput);
        }
        self.permutation(inputs);
        Ok(())
    }

    /// Squeezes one digest: see [`PoseidonHash::output`].
    pub fn squeeze(&mut self) -> (r: FieldElement)
        ensures
            final(self)@ == old(self)@.squeeze(RATE as nat),
            r@ == final(self)@.digest(),
    {
        self.output()
    }

    /// Drains what was absorbed, chunk by chunk, through the permutation,
    /// runs one more permutation without input where the number of
    /// elements drained is a multiple of `RATE`, and returns word 1 of the
    /// state.
    pub fn output(&mut self) -> (r: FieldElement)
        ensures
            final(self)@ == old(self)@.squeeze(RATE as nat),
            r@ == final(self)@.digest(),
    {
        proof {
            use_type_invariant(&*self);
        }
        let ghost p = self.params@;
        let ghost entry = self.state@;
        let mut buf: Vec<FieldElement> = Vec::new();
        std::mem::swap(&mut buf, &mut self.buf);
        let ghost all = values(buf@);
        let exact = buf.len() % RATE == 0;
        assert(all.skip(0) =~= all);

        let mut start: usize = 0;
        while start < buf.len()
            invariant
                start <= buf@.len(),
                RATE >= 1,
                all == values(buf@),
                self@.params == p,
                self@.buf == Seq::<nat>::empty(),
                absorb_chunks(p, self@.state, all.skip(start as int), RATE as nat)
                    == absorb_chunks(p, entry, all, RATE as nat),
            decreases buf@.len() - start,
        {
            let end = if buf.len() - start <= RATE {
                buf.len()
            } else {
                start + RATE
            };
            let chunk = slice_subrange(buf.as_slice(), start, end);
            proof {
                let rest = all.skip(start as int);
                if rest.len() <= RATE {
                    assert(values(chunk@) =~= rest);
                } else {
                    assert(values(chunk@) =~= rest.take(RATE as int));
                    assert(rest.skip(RATE as int) =~= all.skip(end as int));
                }
            }
            self.permutation(chunk);
            start = end;
        }
        if exact {
            let none: [FieldElement; 0] = [];
            assert(values(none@) =~= Seq::<nat>::empty());
            self.permutation(&none);
        }
        self.state.inner[1]
    }

    /// Absorbs `elements`: they are appended to what waits for the next
    /// squeeze. No permutation runs.
    pub fn update(&mut self, elements: &[FieldElement])
        ensures
            final(self)@ == old(self)@.absorb(values(elements@)),
    {
        proof {
            use_type_invariant(&*self);
        }
        let mut buf: Vec<FieldElement> = Vec::new();
        std::mem::swap(&mut buf, &mut self.buf);
        buf.extend_from_slice(elements);
        assert(buf@ =~= old(self).buf@ + elements@);
        self.buf = buf;
        assert(values(self.buf@) =~= values(old(self).buf@) + values(elements@));
    }
}

/// The hasher after each batch of `batches` was absorbed in turn.
pub open spec fn absorb_all(v: SpongeView, batches: Seq<Seq<nat>>) -> SpongeView
    decreases batches.len(),
{
    if batches.len() == 0 {
        v
    } else {
        absorb_all(v.absorb(batches.first()), batches.drop_first())
    }
}

/// Absorbing batch by batch is absorbing their concatenation.
pub proof fn lemma_absorb_all(v: SpongeView, batches: Seq<Seq<nat>>)
    ensures
        absorb_all(v, batches) == v.absorb(batches.flatten()),
    decreases batches.len(),
{
    if batches.len() == 0 {
        assert(v.buf + batches.flatten() =~= v.buf);
    } else {
        let first = batches.first();
        let rest = batches.drop_first();
        lemma_absorb_all(v.absorb(first), rest);
        assert((v.buf + first) + rest.flatten() =~= v.buf + batches.flatten());
    }
}

/// Hashers that agree on parameters, state and pending
/// elements, and then absorb the same elements in order, reach the same
/// state and digest at the next squeeze, however the elements were split
/// into batches.
pub proof fn lemma_equal_runs_agree(
    a: SpongeView,
    b: SpongeView,
    xs: Seq<Seq<nat>>,
    ys: Seq<Seq<nat>>,
    rate: nat,
)
    requires
        a == b,
        xs.flatten() == ys.flatten(),
    ensures
        absorb_all(a, xs).squeeze(rate) == absorb_all(b, ys).squeeze(rate),
        absorb_all(a, xs).squeeze(rate).digest() == absorb_all(b, ys).squeeze(rate).digest(),
{
    lemma_absorb_all(a, xs);
    lemma_absorb_all(b, ys);
}

/// At a rate of two or more, a squeeze over `rate + 1` pending
/// elements is two permutations, the first over `rate` elements and the
/// second over the one that is left.
pub proof fn lemma_one_more_than_rate(v: SpongeView, rate: nat)
    requires
        rate >= 2,
        v.buf.len() == rate + 1,
    ensures
        v.squeeze(rate).state == permute(
            v.params,
            permute(v.params, v.state, v.buf.take(rate as int)),
            v.buf.skip(rate as int),
        ),
{
    let after_first = permute(v.params, v.state, v.buf.take(rate as int));
    let rest = v.buf.skip(rate as int);
    assert(rest.len() == 1);
    assert(absorb_chunks(v.params, after_first, rest, rate) == permute(v.params, after_first, rest));
    assert((rate + 1) % rate == 1) by (nonlinear_arith)
        requires
            rate >= 2,
    ;
}

/// A squeeze that follows a squeeze, with nothing
/// absorbed in between, is one permutation without input, so its digest
/// is fixed by the state that the first squeeze left.
pub proof fn lemma_squeeze_again(v: SpongeView, rate: nat)
    requires
        rate >= 1,
    ensures
        v.squeeze(rate).squeeze(rate).state == permute(
            v.params,
            v.squeeze(rate).state,
            Seq::empty(),
        ),
{
    assert(0nat % rate == 0) by (nonlinear_arith)
        requires
            rate >= 1,
    ;
}

/// The state after a squeeze over the single element `a`: one permutation
/// over `a`, and at rate one, where `a` fills its chunk, one more without
/// input.
pub open spec fn single_run(p: ParameterSetView, s: Seq<nat>, a: nat, rate: nat) -> Seq<nat> {
    let once = permute(p, s, seq![a]);
    if rate == 1 {
        permute(p, once, Seq::empty())
    } else {
        once
    }
}

/// The state after a squeeze over `a` followed by zero. At rate one the
/// two elements are a chunk each; at rate two they fill one chunk; in both
/// cases a permutation without input follows. At any higher rate they are
/// one short chunk.
pub open spec fn extended_run(p: ParameterSetView, s: Seq<nat>, a: nat, rate: nat) -> Seq<nat> {
    if rate == 1 {
        permute(p, permute(p, permute(p, s, seq![a]), seq![0nat]), Seq::empty())
    } else if rate == 2 {
        permute(p, permute(p, s, seq![a, 0nat]), Seq::empty())
    } else {
        permute(p, s, seq![a, 0nat])
    }
}

/// What a hasher with nothing pending computes for `a`, and for `a`
/// followed by zero.
pub proof fn lemma_zero_extension_runs(v: SpongeView, a: nat, rate: nat)
    requires
        rate >= 1,
        v.buf.len() == 0,
    ensures
        v.absorb(seq![a]).squeeze(rate).state == single_run(v.params, v.state, a, rate),
        v.absorb(seq![a, 0nat]).squeeze(rate).state == extended_run(v.params, v.state, a, rate),
{
    let p = v.params;
    let short = seq![a];
    let long = seq![a, 0nat];
    assert(v.buf + short =~= short);
    assert(v.buf + long =~= long);
    assert(1nat % rate == (if rate == 1 { 0nat } else { 1nat })) by (nonlinear_arith)
        requires
            rate >= 1,
    ;
    assert(2nat % rate == (if rate <= 2 { 0nat } else { 2nat })) by (nonlinear_arith)
        requires
            rate >= 1,
    ;
    if rate == 1 {
        let once = permute(p, v.state, short);
        assert(long.take(1) =~= short);
        assert(long.skip(1) =~= seq![0nat]);
        assert(absorb_chunks(p, once, seq![0nat], rate) == permute(p, once, seq![0nat]));
    }
}

/// A zero appended to a single input changes the digest, wherever the
/// permutations that the two squeezes run part in word 1. Nothing else is
/// asked: the padding and the chunking keep every difference that the
/// permutation makes.
pub proof fn lemma_zero_extension_changes_digest(v: SpongeView, a: nat, rate: nat)
    requires
        rate >= 1,
        v.buf.len() == 0,
        single_run(v.params, v.state, a, rate)[1] != extended_run(v.params, v.state, a, rate)[1],
    ensures
        v.absorb(seq![a]).squeeze(rate).digest() != v.absorb(seq![a, 0nat]).squeeze(
            rate,
        ).digest(),
{
    lemma_zero_extension_runs(v, a, rate);
}

/// A second squeeze with nothing absorbed in between gives another digest,
/// wherever the permutation without input moves word 1 of the state that
/// the first squeeze left.
pub proof fn lemma_second_digest_differs(v: SpongeView, rate: nat)
    requires
        rate >= 1,
        permute(v.params, v.squeeze(rate).state, Seq::empty())[1] != v.squeeze(rate).state[1],
    ensures
        v.squeeze(rate).squeeze(rate).digest() != v.squeeze(rate).digest(),
{
    lemma_squeeze_again(v, rate);
}

} // verus!
