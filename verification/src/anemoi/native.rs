//! The Anemoi permutation on a state of two cells, and the hash that
//! compresses its output, computed on field elements.

use super::constants::{
    beta, beta_spec, delta, delta_spec, exp_inv_alpha, exp_inv_alpha_spec, round_c,
    round_constants_c, round_constants_d, round_d, GENERATOR, NUM_ROUNDS,
};
use crate::field::{fadd, fmul, fsub, modulus, values, FieldElement};
use vstd::prelude::*;

verus! {

/// What the S-box makes of the cells `(x, y)`: it takes beta times the square
/// of `y` from `x`, the fifth root of the new `x` from `y`, and adds beta
/// times the square of the new `y`, and delta, to `x`.
pub open spec fn sbox_spec(s: (nat, nat)) -> (nat, nat) {
    let x1 = fsub(s.0, fmul(beta_spec(), fmul(s.1, s.1)));
    let y1 = fsub(s.1, exp_inv_alpha_spec(x1));
    let x2 = fadd(x1, fadd(fmul(beta_spec(), fmul(y1, y1)), delta_spec()));
    (x2, y1)
}

/// What the linear layer makes of the cells: the product of the matrix with
/// rows `(g, 1)` and `(1, g + 1)` with the state, `g` being the generator.
pub open spec fn mds_spec(s: (nat, nat)) -> (nat, nat) {
    (
        fadd(fmul(GENERATOR as nat, s.0), s.1),
        fadd(s.0, fmul(fadd(GENERATOR as nat, 1), s.1)),
    )
}

/// The cells with the constants of round `round` added.
pub open spec fn ark_spec(s: (nat, nat), round: int) -> (nat, nat) {
    (fadd(s.0, round_c(round)), fadd(s.1, round_d(round)))
}

/// One round: constants, linear layer, S-box.
pub open spec fn round_spec(s: (nat, nat), round: int) -> (nat, nat) {
    sbox_spec(mds_spec(ark_spec(s, round)))
}

/// The state after the first `n` rounds.
pub open spec fn rounds_spec(s: (nat, nat), n: nat) -> (nat, nat)
    decreases n,
{
    if n == 0 {
        s
    } else {
        round_spec(rounds_spec(s, (n - 1) as nat), n - 1)
    }
}

/// The whole permutation: all rounds, then one more linear layer.
pub open spec fn permutation_spec(s: (nat, nat)) -> (nat, nat) {
    mds_spec(rounds_spec(s, NUM_ROUNDS as nat))
}

/// The hash of two elements: the sum of the two cells that the permutation
/// leaves when it starts from them.
pub open spec fn hash2_spec(a: nat, b: nat) -> nat {
    let s = permutation_spec((a, b));
    fadd(s.0, s.1)
}

/// The hash of the first `n` of `xs`, for `n` of two or more: the first two
/// hashed together, then the running hash with each further element.
pub open spec fn hash_chain_spec(xs: Seq<nat>, n: nat) -> nat
    decreases n,
{
    if n <= 2 {
        hash2_spec(xs[0], xs[1])
    } else {
        hash2_spec(hash_chain_spec(xs, (n - 1) as nat), xs[n - 1])
    }
}

/// The hash of a sequence: of nothing, the hash of two zeros; of one element,
/// its hash with zero; of more, the chain over all of them.
pub open spec fn hash_many_spec(xs: Seq<nat>) -> nat {
    if xs.len() == 0 {
        hash2_spec(0, 0)
    } else if xs.len() == 1 {
        hash2_spec(xs[0], 0)
    } else {
        hash_chain_spec(xs, xs.len())
    }
}

/// The state of the permutation: two cells.
#[derive(Clone, Copy, Debug)]
pub struct AnemoiState {
    pub x: FieldElement,
    pub y: FieldElement,
}

impl View for AnemoiState {
    type V = (nat, nat);

    open spec fn view(&self) -> (nat, nat) {
        (self.x@, self.y@)
    }
}

impl AnemoiState {
    /// The state with both cells zero.
    pub fn new() -> (r: Self)
        ensures
            r@ == (0nat, 0nat),
    {
        AnemoiState { x: FieldElement::zero(), y: FieldElement::zero() }
    }

    /// The state with the given cells.
    pub fn from_elements(x: FieldElement, y: FieldElement) -> (r: Self)
        ensures
            r@ == (x@, y@),
    {
        AnemoiState { x, y }
    }
}

impl Default for AnemoiState {
    fn default() -> (r: Self)
        ensures
            r@ == (0nat, 0nat),
    {
        AnemoiState::new()
    }
}

/// Applies the S-box to the state.
pub fn apply_sbox(state: &mut AnemoiState)
    ensures
        final(state)@ == sbox_spec(old(state)@),
{
    let beta = beta();
    let delta = delta();
    let y_squared = state.y.square();
    let x1 = state.x.sub(&beta.mul(&y_squared));
    let x_inv_alpha = exp_inv_alpha(x1);
    let y1 = state.y.sub(&x_inv_alpha);
    let new_y_squared = y1.square();
    let x2 = x1.add(&beta.mul(&new_y_squared).add(&delta));
    state.x = x2;
    state.y = y1;
}

/// Applies the linear layer to the state.
pub fn apply_mds(state: &mut AnemoiState)
    ensures
        final(state)@ == mds_spec(old(state)@),
{
    let g = FieldElement::from_u64(GENERATOR);
    let g_plus_one = g.add(&FieldElement::from_u64(1));
    let new_x = g.mul(&state.x).add(&state.y);
    let new_y = state.x.add(&g_plus_one.mul(&state.y));
    state.x = new_x;
    state.y = new_y;
}

/// Adds the constants of round `round`, taken from the tables `c` and `d`,
/// to the two cells.
pub fn apply_round_constants(
    state: &mut AnemoiState,
    round: usize,
    c: &[FieldElement],
    d: &[FieldElement],
)
    requires
        round < c@.len(),
        round < d@.len(),
    ensures
        final(state)@ == (
            fadd(old(state).x@, c@[round as int]@),
            fadd(old(state).y@, d@[round as int]@),
        ),
{
    let new_x = state.x.add(&c[round]);
    let new_y = state.y.add(&d[round]);
    state.x = new_x;
    state.y = new_y;
}

/// Runs the whole permutation on the state.
pub fn permutation(state: &mut AnemoiState)
    ensures
        final(state)@ == permutation_spec(old(state)@),
{
    let c = round_constants_c();
    let d = round_constants_d();
    let mut round: usize = 0;
    while round < NUM_ROUNDS
        invariant
            round <= NUM_ROUNDS,
            state@ == rounds_spec(old(state)@, round as nat),
            forall|i: int| 0 <= i < NUM_ROUNDS ==> (#[trigger] c[i])@ == round_c(i),
            forall|i: int| 0 <= i < NUM_ROUNDS ==> (#[trigger] d[i])@ == round_d(i),
        decreases NUM_ROUNDS - round,
    {
        apply_round_constants(state, round, c.as_slice(), d.as_slice());
        apply_mds(state);
        apply_sbox(state);
        round += 1;
    }
    apply_mds(state);
}

/// Hashes two field elements.
pub fn anemoi_hash_two(a: FieldElement, b: FieldElement) -> (h: FieldElement)
    ensures
        h@ == hash2_spec(a@, b@),
{
    let mut state = AnemoiState::from_elements(a, b);
    permutation(&mut state);
    state.x.add(&state.y)
}

/// Hashes one field element: its hash with zero.
pub fn anemoi_hash(input: FieldElement) -> (h: FieldElement)
    ensures
        h@ == hash2_spec(input@, 0),
{
    anemoi_hash_two(input, FieldElement::zero())
}

/// Hashes any number of field elements.
pub fn anemoi_hash_many(inputs: &[FieldElement]) -> (h: FieldElement)
    ensures
        h@ == hash_many_spec(values(inputs@)),
{
    if inputs.len() == 0 {
        return anemoi_hash_two(FieldElement::zero(), FieldElement::zero());
    }
    if inputs.len() == 1 {
        return anemoi_hash(inputs[0]);
    }
    let mut acc = anemoi_hash_two(inputs[0], inputs[1]);
    let mut i: usize = 2;
    while i < inputs.len()
        invariant
            2 <= i <= inputs.len(),
            acc@ == hash_chain_spec(values(inputs@), i as nat),
        decreases inputs.len() - i,
    {
        acc = anemoi_hash_two(acc, inputs[i]);
        i += 1;
    }
    acc
}

/// Whether two different pairs of residues have the same hash.
pub open spec fn collision(a1: nat, b1: nat, a2: nat, b2: nat) -> bool {
    &&& a1 < modulus()
    &&& b1 < modulus()
    &&& a2 < modulus()
    &&& b2 < modulus()
    &&& (a1 != a2 || b1 != b2)
    &&& hash2_spec(a1, b1) == hash2_spec(a2, b2)
}

/// Whether the hash has a collision among residues.
pub open spec fn collision_exists() -> bool {
    exists|a1: nat, b1: nat, a2: nat, b2: nat| collision(a1, b1, a2, b2)
}

/// Whether every element of a sequence is a residue.
pub open spec fn all_residues(xs: Seq<nat>) -> bool {
    forall|i: int| 0 <= i < xs.len() ==> #[trigger] xs[i] < modulus()
}

/// A hash is a residue.
pub proof fn lemma_hash_is_residue(a: nat, b: nat)
    ensures
        hash2_spec(a, b) < modulus(),
{
}

/// The hash of a sequence is a residue.
pub proof fn lemma_hash_many_is_residue(xs: Seq<nat>)
    ensures
        hash_many_spec(xs) < modulus(),
{
}

/// The order of the inputs matters: two different residues hash to the same
/// value in both orders only if the hash has a collision.
pub proof fn lemma_order_matters(a: nat, b: nat)
    requires
        a < modulus(),
        b < modulus(),
        a != b,
        hash2_spec(a, b) == hash2_spec(b, a),
    ensures
        collision_exists(),
{
    assert(collision(a, b, b, a));
}

/// The chain binds every input: two sequences of residues that differ
/// somewhere among their first `n` elements have the same chained hash only
/// if the hash has a collision.
pub proof fn lemma_chain_binds(xs: Seq<nat>, ys: Seq<nat>, n: nat)
    requires
        2 <= n <= xs.len(),
        n <= ys.len(),
        all_residues(xs),
        all_residues(ys),
        exists|i: int| 0 <= i < n && xs[i] != ys[i],
        hash_chain_spec(xs, n) == hash_chain_spec(ys, n),
    ensures
        collision_exists(),
    decreases n,
{
    let i = choose|i: int| 0 <= i < n && xs[i] != ys[i];
    assert(xs[0] < modulus() && xs[1] < modulus() && ys[0] < modulus() && ys[1] < modulus());
    if n == 2 {
        assert(collision(xs[0], xs[1], ys[0], ys[1]));
    } else {
        let cx = hash_chain_spec(xs, (n - 1) as nat);
        let cy = hash_chain_spec(ys, (n - 1) as nat);
        assert(xs[n - 1] < modulus() && ys[n - 1] < modulus());
        if cx != cy || xs[n - 1] != ys[n - 1] {
            assert(collision(cx, xs[n - 1], cy, ys[n - 1]));
        } else {
            assert(i < n - 1);
            lemma_chain_binds(xs, ys, (n - 1) as nat);
        }
    }
}

/// The hash of a sequence binds every input: two sequences of residues of
/// the same length, two or more, that differ somewhere have the same hash
/// only if the hash has a collision.
pub proof fn lemma_hash_many_binds(xs: Seq<nat>, ys: Seq<nat>)
    requires
        xs.len() == ys.len(),
        xs.len() >= 2,
        all_residues(xs),
        all_residues(ys),
        xs != ys,
        hash_many_spec(xs) == hash_many_spec(ys),
    ensures
        collision_exists(),
{
    if forall|i: int| 0 <= i < xs.len() ==> xs[i] == ys[i] {
        assert(xs =~= ys);
    }
    lemma_chain_binds(xs, ys, xs.len());
}

/// Hashing is a function: equal inputs give equal hashes.
pub proof fn lemma_hash_deterministic(a1: nat, b1: nat, a2: nat, b2: nat)
    requires
        a1 == a2,
        b1 == b2,
    ensures
        hash2_spec(a1, b1) == hash2_spec(a2, b2),
{
}

} // verus!
