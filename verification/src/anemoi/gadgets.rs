//! The Anemoi permutation and its hash as constraints.
//!
//! Each gadget computes what its counterpart on field elements computes and
//! writes the constraints that bind the result. The one step that is no
//! polynomial of low degree, the fifth root, is taken outside the constraints:
//! the root is a fresh witness, and one constraint says that its fifth power
//! is the element it was taken from.

use super::constants::{
    beta, delta, exp_alpha_spec, exp_inv_alpha, exp_inv_alpha_spec,
    lemma_fifth_power_of_fifth_root, round_c, round_constants_c, round_constants_d, round_d,
    GENERATOR, NUM_ROUNDS,
};
use super::native::{
    hash2_spec, hash_chain_spec, hash_many_spec, mds_spec, permutation_spec, rounds_spec,
    sbox_spec,
};
use crate::field::{fadd, fmul, FieldElement};
use crate::r1cs::{
    all_valid_in, lemma_all_valid_in_extension, lemma_grows_transitive, lemma_valid_in_extension,
    var_values, ConstraintSystem, FpVar,
};
use vstd::prelude::*;

verus! {

broadcast use {lemma_valid_in_extension, lemma_all_valid_in_extension, lemma_grows_transitive};

/// How the satisfaction of a system relates to that of the system it grew
/// from, where the constraints added in between hold just where `cond`
/// does: the newer system is satisfied just where the older one was and
/// `cond` holds.
pub open spec fn sat_step(newer: &ConstraintSystem, older: &ConstraintSystem, cond: bool) -> bool {
    newer.spec_satisfied() == (older.spec_satisfied() && cond)
}

/// The state of the permutation as variables of a circuit.
#[derive(Clone, Debug)]
pub struct AnemoiStateVar {
    pub x: FpVar,
    pub y: FpVar,
}

impl View for AnemoiStateVar {
    type V = (nat, nat);

    open spec fn view(&self) -> (nat, nat) {
        (self.x@, self.y@)
    }
}

impl AnemoiStateVar {
    /// Whether both cells belong to a system.
    pub open spec fn valid_in(&self, cs: &ConstraintSystem) -> bool {
        self.x.valid_in(cs) && self.y.valid_in(cs)
    }

    /// The state with the given cells.
    pub fn from_vars(x: FpVar, y: FpVar) -> (r: Self)
        ensures
            r.x == x,
            r.y == y,
    {
        AnemoiStateVar { x, y }
    }
}

/// The fifth power of a variable, at the cost of three constraints.
pub fn exp_alpha_var(x: &FpVar, cs: &mut ConstraintSystem) -> (r: FpVar)
    requires
        old(cs).wf(),
        x.valid_in(old(cs)),
    ensures
        final(cs).wf(),
        final(cs).grows_from(old(cs)),
        final(cs).spec_satisfied() == old(cs).spec_satisfied(),
        final(cs).spec_constraints().len() == old(cs).spec_constraints().len() + 3,
        r.valid_in(final(cs)),
        r@ == exp_alpha_spec(x@),
{
    let x2 = x.square(cs);
    let x4 = x2.square(cs);
    x4.mul(x, cs)
}

/// The fifth root of a variable: a fresh witness whose fifth power is bound
/// to the variable, at the cost of three constraints. The constraints hold
/// just where the fifth power of the witness is the variable, and that is so
/// for the root of every element of the field: a system that was satisfied
/// stays satisfied.
pub fn exp_inv_alpha_var(cs: &mut ConstraintSystem, x: &FpVar) -> (w: FpVar)
    requires
        old(cs).wf(),
        x.valid_in(old(cs)),
    ensures
        final(cs).wf(),
        final(cs).grows_from(old(cs)),
        final(cs).spec_satisfied() == (old(cs).spec_satisfied() && exp_alpha_spec(w@) == x@),
        final(cs).spec_constraints().len() == old(cs).spec_constraints().len() + 3,
        sat_step(final(cs), old(cs), true),
        w.valid_in(final(cs)),
        w@ == exp_inv_alpha_spec(x@),
{
    let x_value = x.value();
    proof {
        use_type_invariant(&x_value);
    }
    let w = cs.new_witness(exp_inv_alpha(x_value));
    let w2 = w.square(cs);
    let w4 = w2.square(cs);
    cs.enforce_constraint(&w4, &w, x);
    proof {
        lemma_fifth_power_of_fifth_root(x@);
    }
    w
}

/// A variable times the generator. It costs no constraint.
pub fn mul_by_generator_var(x: &FpVar) -> (r: FpVar)
    ensures
        r@ == fmul(GENERATOR as nat, x@),
        forall|cs: &ConstraintSystem| x.valid_in(cs) ==> #[trigger] r.valid_in(cs),
{
    x.scale(&FieldElement::from_u64(GENERATOR))
}

/// Applies the S-box to the state, at the cost of seven constraints.
#[verifier::rlimit(50)]
pub fn apply_sbox_var(cs: &mut ConstraintSystem, state: &mut AnemoiStateVar)
    requires
        old(cs).wf(),
        old(state).valid_in(old(cs)),
    ensures
        final(cs).wf(),
        final(cs).grows_from(old(cs)),
        final(cs).spec_constraints().len() == old(cs).spec_constraints().len() + 7,
        sat_step(final(cs), old(cs), true),
        final(state).valid_in(final(cs)),
        final(state)@ == sbox_spec(old(state)@),
{
    let beta = beta();
    let delta = delta();
    let y_squared = state.y.square(cs);
    let x1 = state.x.sub(&y_squared.scale(&beta));
    let x_inv_alpha = exp_inv_alpha_var(cs, &x1);
    let y1 = state.y.sub(&x_inv_alpha);
    let new_y_squared = y1.square(cs);
    let x2 = x1.add(&new_y_squared.scale(&beta).add_constant(&delta));
    let new_x = x2.reduce(cs);
    let new_y = y1.reduce(cs);
    state.x = new_x;
    state.y = new_y;
}

/// Applies the linear layer to the state. It costs no constraint.
pub fn apply_mds_var(state: &mut AnemoiStateVar)
    ensures
        final(state)@ == mds_spec(old(state)@),
        forall|cs: &ConstraintSystem|
            old(state).valid_in(cs) ==> #[trigger] final(state).valid_in(cs),
{
    let g_plus_one = FieldElement::from_u64(GENERATOR).add(&FieldElement::from_u64(1));
    let new_x = mul_by_generator_var(&state.x).add(&state.y);
    let new_y = state.x.add(&state.y.scale(&g_plus_one));
    proof {
        assert forall|cs: &ConstraintSystem| old(state).valid_in(cs) implies new_x.valid_in(cs)
            && #[trigger] new_y.valid_in(cs) by {}
    }
    state.x = new_x;
    state.y = new_y;
}

/// Adds the constants of round `round`, taken from the tables `c` and `d`,
/// to the two cells. It costs no constraint.
pub fn apply_round_constants_var(
    state: &mut AnemoiStateVar,
    round: usize,
    c: &[FieldElement],
    d: &[FieldElement],
)
    requires
        round < c@.len(),
        round < d@.len(),
    ensures
        final(state)@ == (
            fadd(old(state).x@, c@[round as int]@),
            fadd(old(state).y@, d@[round as int]@),
        ),
        forall|cs: &ConstraintSystem|
            cs.wf() && old(state).valid_in(cs) ==> #[trigger] final(state).valid_in(cs),
{
    let new_x = state.x.add_constant(&c[round]);
    let new_y = state.y.add_constant(&d[round]);
    proof {
        assert forall|cs: &ConstraintSystem| cs.wf() && old(state).valid_in(cs) implies new_x.valid_in(
            cs,
        ) && #[trigger] new_y.valid_in(cs) by {}
    }
    state.x = new_x;
    state.y = new_y;
}

/// Runs the whole permutation on the state, at the cost of seven constraints
/// for each round.
#[verifier::rlimit(50)]
pub fn permutation_var(cs: &mut ConstraintSystem, state: &mut AnemoiStateVar)
    requires
        old(cs).wf(),
        old(state).valid_in(old(cs)),
    ensures
        final(cs).wf(),
        final(cs).grows_from(old(cs)),
        final(cs).spec_constraints().len() == old(cs).spec_constraints().len() + 7 * NUM_ROUNDS,
        sat_step(final(cs), old(cs), true),
        final(state).valid_in(final(cs)),
        final(state)@ == permutation_spec(old(state)@),
{
    let c = round_constants_c();
    let d = round_constants_d();
    let mut round: usize = 0;
    while round < NUM_ROUNDS
        invariant
            round <= NUM_ROUNDS,
            cs.wf(),
            cs.grows_from(old(cs)),
            cs.spec_constraints().len() == old(cs).spec_constraints().len() + 7 * round,
            sat_step(cs, old(cs), true),
            state.valid_in(cs),
            state@ == rounds_spec(old(state)@, round as nat),
            forall|i: int| 0 <= i < NUM_ROUNDS ==> (#[trigger] c[i])@ == round_c(i),
            forall|i: int| 0 <= i < NUM_ROUNDS ==> (#[trigger] d[i])@ == round_d(i),
        decreases NUM_ROUNDS - round,
    {
        apply_round_constants_var(state, round, c.as_slice(), d.as_slice());
        apply_mds_var(state);
        assert(state.valid_in(cs));
        apply_sbox_var(cs, state);
        round += 1;
    }
    apply_mds_var(state);
    assert(state.valid_in(cs));
}

/// Hashes two variables.
pub fn anemoi_hash_two_var(cs: &mut ConstraintSystem, a: &FpVar, b: &FpVar) -> (h: FpVar)
    requires
        old(cs).wf(),
        a.valid_in(old(cs)),
        b.valid_in(old(cs)),
    ensures
        final(cs).wf(),
        final(cs).grows_from(old(cs)),
        final(cs).spec_constraints().len() == old(cs).spec_constraints().len() + 7 * NUM_ROUNDS,
        sat_step(final(cs), old(cs), true),
        h.valid_in(final(cs)),
        h@ == hash2_spec(a@, b@),
{
    let mut state = AnemoiStateVar::from_vars(a.clone(), b.clone());
    assert(state.valid_in(cs));
    permutation_var(cs, &mut state);
    state.x.add(&state.y)
}

/// Hashes one variable: its hash with zero.
pub fn anemoi_hash_var(cs: &mut ConstraintSystem, input: &FpVar) -> (h: FpVar)
    requires
        old(cs).wf(),
        input.valid_in(old(cs)),
    ensures
        final(cs).wf(),
        final(cs).grows_from(old(cs)),
        sat_step(final(cs), old(cs), true),
        h.valid_in(final(cs)),
        h@ == hash2_spec(input@, 0),
{
    let zero = FpVar::zero();
    anemoi_hash_two_var(cs, input, &zero)
}

/// Hashes any number of variables.
#[verifier::rlimit(50)]
pub fn anemoi_hash_many_var(cs: &mut ConstraintSystem, inputs: &[FpVar]) -> (h: FpVar)
    requires
        old(cs).wf(),
        all_valid_in(inputs@, old(cs)),
    ensures
        final(cs).wf(),
        final(cs).grows_from(old(cs)),
        sat_step(final(cs), old(cs), true),
        h.valid_in(final(cs)),
        h@ == hash_many_spec(var_values(inputs@)),
{
    if inputs.len() == 0 {
        let zero = FpVar::zero();
        return anemoi_hash_two_var(cs, &zero, &zero);
    }
    if inputs.len() == 1 {
        return anemoi_hash_var(cs, &inputs[0]);
    }
    let mut acc = anemoi_hash_two_var(cs, &inputs[0], &inputs[1]);
    let mut i: usize = 2;
    while i < inputs.len()
        invariant
            2 <= i <= inputs@.len(),
            cs.wf(),
            cs.grows_from(old(cs)),
            sat_step(cs, old(cs), true),
            all_valid_in(inputs@, old(cs)),
            acc.valid_in(cs),
            acc@ == hash_chain_spec(var_values(inputs@), i as nat),
        decreases inputs@.len() - i,
    {
        assert(inputs@[i as int].valid_in(old(cs)));
        acc = anemoi_hash_two_var(cs, &acc, &inputs[i]);
        i += 1;
    }
    acc
}

} // verus!
